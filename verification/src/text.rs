//! Text operations, stated over sequences of Unicode scalar values.

use vstd::prelude::*;
use vstd::string::*;

verus! {

/// Appends one character: `String::push` puts `ch` behind the characters that are there.
pub assume_specification[ String::push ](s: &mut String, ch: char)
    ensures
        final(s)@ == old(s)@.push(ch),
;

/// Whether `c` has the Unicode property `White_Space`.
pub open spec fn is_space(c: char) -> bool {
    let n = c as u32;
    ||| 0x09 <= n <= 0x0d
    ||| n == 0x20
    ||| n == 0x85
    ||| n == 0xa0
    ||| n == 0x1680
    ||| 0x2000 <= n <= 0x200a
    ||| n == 0x2028
    ||| n == 0x2029
    ||| n == 0x202f
    ||| n == 0x205f
    ||| n == 0x3000
}

/// Whether `c` is a letter or digit of ASCII.
pub open spec fn is_ascii_alnum(c: char) -> bool {
    ||| '0' <= c <= '9'
    ||| 'A' <= c <= 'Z'
    ||| 'a' <= c <= 'z'
}

/// `c` with an ASCII capital turned into its small letter.
pub open spec fn lower_char(c: char) -> char {
    if 'A' <= c <= 'Z' {
        ((c as u8) + 32) as char
    } else {
        c
    }
}

/// `s` with every ASCII capital turned into its small letter.
pub open spec fn lower_text(s: Seq<char>) -> Seq<char> {
    s.map_values(|c: char| lower_char(c))
}

/// The predicate that holds of `c` alone.
pub open spec fn only(c: char) -> spec_fn(char) -> bool {
    |x: char| x == c
}

/// The predicate that holds of white space.
pub open spec fn space() -> spec_fn(char) -> bool {
    |x: char| is_space(x)
}

/// `s` without the leading characters of which `drop` holds.
pub open spec fn trim_start_by(s: Seq<char>, drop: spec_fn(char) -> bool) -> Seq<char>
    decreases s.len(),
{
    if s.len() > 0 && drop(s[0]) {
        trim_start_by(s.drop_first(), drop)
    } else {
        s
    }
}

/// `s` without the trailing characters of which `drop` holds.
pub open spec fn trim_end_by(s: Seq<char>, drop: spec_fn(char) -> bool) -> Seq<char>
    decreases s.len(),
{
    if s.len() > 0 && drop(s.last()) {
        trim_end_by(s.drop_last(), drop)
    } else {
        s
    }
}

/// `s` without the characters of which `drop` holds at either end.
pub open spec fn trim_by(s: Seq<char>, drop: spec_fn(char) -> bool) -> Seq<char> {
    trim_end_by(trim_start_by(s, drop), drop)
}

/// The parts of `s` between occurrences of `c`.
pub open spec fn split_on(s: Seq<char>, c: char) -> Seq<Seq<char>>
    decreases s.len(),
{
    if s.len() == 0 {
        seq![Seq::empty()]
    } else {
        let front = split_on(s.drop_last(), c);
        if s.last() == c {
            front.push(Seq::empty())
        } else {
            front.update(front.len() - 1, front.last().push(s.last()))
        }
    }
}

/// What follows the first occurrence of `part` in `s`.
pub open spec fn rest_after(s: Seq<char>, part: Seq<char>) -> Option<Seq<char>>
    decreases s.len(),
{
    if part.is_prefix_of(s) {
        Some(s.skip(part.len() as int))
    } else if s.len() == 0 {
        None
    } else {
        rest_after(s.drop_first(), part)
    }
}

/// `s` without any number of trailing occurrences of `suffix`.
pub open spec fn trim_suffix(s: Seq<char>, suffix: Seq<char>) -> Seq<char>
    decreases s.len(),
{
    if suffix.len() > 0 && suffix.is_suffix_of(s) {
        trim_suffix(s.take(s.len() - suffix.len()), suffix)
    } else {
        s
    }
}

/// `s` without `prefix`, where it begins with it.
pub open spec fn without_prefix(s: Seq<char>, prefix: Seq<char>) -> Option<Seq<char>> {
    if prefix.is_prefix_of(s) {
        Some(s.skip(prefix.len() as int))
    } else {
        None
    }
}

/// Lexicographic order by scalar value.
pub open spec fn text_le(a: Seq<char>, b: Seq<char>) -> bool
    decreases a.len(),
{
    if a.len() == 0 {
        true
    } else if b.len() == 0 {
        false
    } else if a[0] != b[0] {
        a[0] < b[0]
    } else {
        text_le(a.drop_first(), b.drop_first())
    }
}

/// The decimal digit for `d`.
pub open spec fn digit_char(d: nat) -> char {
    (48 + d) as char
}

/// `n` written in decimal without leading zeros.
pub open spec fn decimal(n: nat) -> Seq<char>
    decreases n,
{
    if n < 10 {
        seq![digit_char(n)]
    } else {
        decimal(n / 10).push(digit_char(n % 10))
    }
}

/// The texts held by a sequence of strings.
pub open spec fn texts(v: Seq<String>) -> Seq<Seq<char>> {
    v.map_values(|s: String| s@)
}

/// The text held by an optional string.
pub open spec fn opt_text(v: Option<String>) -> Option<Seq<char>> {
    match v {
        Some(s) => Some(s@),
        None => None,
    }
}

/// The characters of `s`, in order.
pub fn chars_of(s: &str) -> (r: Vec<char>)
    ensures
        r@ == s@,
{
    let mut out: Vec<char> = Vec::new();
    for c in it: s.chars()
        invariant
            out@ == it.seq().take(it.index() as int),
            it.seq() == s@,
    {
        out.push(c);
    }
    out
}

/// Whether the two texts are equal.
pub fn same_text(a: &str, b: &str) -> (r: bool)
    ensures
        r == (a@ == b@),
{
    let x = a.to_string();
    let y = b.to_string();
    x == y
}

/// Whether `s` begins with `prefix`.
pub fn starts_with(s: &str, prefix: &str) -> (r: bool)
    ensures
        r == prefix@.is_prefix_of(s@),
{
    let n = prefix.unicode_len();
    if s.unicode_len() < n {
        return false;
    }
    let head = s.substring_char(0, n);
    assert(head@ == s@.take(n as int));
    assert(prefix@.is_prefix_of(s@) <==> prefix@ == s@.take(n as int)) by {
        if prefix@.is_prefix_of(s@) {
            assert(s@.take(n as int) =~= prefix@);
        }
    }
    same_text(head, prefix)
}

/// Whether `s` ends with `suffix`.
pub fn ends_with(s: &str, suffix: &str) -> (r: bool)
    ensures
        r == suffix@.is_suffix_of(s@),
{
    let n = suffix.unicode_len();
    let len = s.unicode_len();
    if len < n {
        return false;
    }
    let tail = s.substring_char(len - n, len);
    assert(tail@ == s@.subrange(len - n, len as int));
    same_text(tail, suffix)
}

/// White space test for one character.
pub fn char_is_space(c: char) -> (r: bool)
    ensures
        r == is_space(c),
{
    let n: u32 = c as u32;
    (0x09 <= n && n <= 0x0d) || n == 0x20 || n == 0x85 || n == 0xa0 || n == 0x1680 || (0x2000 <= n
        && n <= 0x200a) || n == 0x2028 || n == 0x2029 || n == 0x202f || n == 0x205f || n == 0x3000
}

/// Letter or digit test within ASCII for one character.
pub fn char_is_ascii_alnum(c: char) -> (r: bool)
    ensures
        r == is_ascii_alnum(c),
{
    let n: u32 = c as u32;
    (0x30 <= n && n <= 0x39) || (0x41 <= n && n <= 0x5a) || (0x61 <= n && n <= 0x7a)
}

/// `c` with an ASCII capital turned into its small letter.
pub fn lower_of(c: char) -> (r: char)
    ensures
        r == lower_char(c),
{
    let n: u32 = c as u32;
    if 0x41 <= n && n <= 0x5a {
        let small: u8 = c as u8 + 32;
        small as char
    } else {
        c
    }
}

proof fn lemma_trim_end_cut(s: Seq<char>, drop: spec_fn(char) -> bool, n: int)
    requires
        0 <= n <= s.len(),
        trim_end_by(s, drop) == trim_end_by(s.take(n), drop),
        n > 0 ==> !drop(s[n - 1]),
    ensures
        trim_end_by(s, drop) == s.take(n),
{
    if n > 0 {
        assert(s.take(n).last() == s[n - 1]);
    }
}

/// `s` without trailing occurrences of `c`.
pub fn trim_end_char(s: &str, c: char) -> (r: &str)
    ensures
        r@ == trim_end_by(s@, only(c)),
{
    let chars = chars_of(s);
    let mut n: usize = chars.len();
    assert(s@.take(n as int) =~= s@);
    while n > 0 && chars[n - 1] == c
        invariant
            n <= chars@.len(),
            chars@ == s@,
            trim_end_by(s@, only(c)) == trim_end_by(s@.take(n as int), only(c)),
        decreases n,
    {
        proof {
            assert(s@.take(n as int).drop_last() =~= s@.take(n - 1));
            assert(s@.take(n as int).last() == s@[n - 1]);
        }
        n = n - 1;
    }
    proof {
        lemma_trim_end_cut(s@, only(c), n as int);
    }
    s.substring_char(0, n)
}

/// `s` without leading occurrences of `c`.
pub fn trim_start_char(s: &str, c: char) -> (r: &str)
    ensures
        r@ == trim_start_by(s@, only(c)),
{
    let chars = chars_of(s);
    let len = chars.len();
    let mut n: usize = 0;
    assert(s@.skip(0) =~= s@);
    while n < len && chars[n] == c
        invariant
            n <= len,
            len == chars@.len(),
            chars@ == s@,
            trim_start_by(s@, only(c)) == trim_start_by(s@.skip(n as int), only(c)),
        decreases len - n,
    {
        proof {
            assert(s@.skip(n as int).drop_first() =~= s@.skip(n + 1));
            assert(s@.skip(n as int)[0] == s@[n as int]);
        }
        n = n + 1;
    }
    proof {
        if n < len {
            assert(s@.skip(n as int)[0] == s@[n as int]);
        }
        assert(s@.subrange(n as int, len as int) =~= s@.skip(n as int));
    }
    s.substring_char(n, len)
}

/// `s` without occurrences of `c` at either end.
pub fn trim_char(s: &str, c: char) -> (r: &str)
    ensures
        r@ == trim_by(s@, only(c)),
{
    let front = trim_start_char(s, c);
    trim_end_char(front, c)
}

/// `s` without white space at either end.
pub fn trim(s: &str) -> (r: &str)
    ensures
        r@ == trim_by(s@, space()),
{
    let chars = chars_of(s);
    let len = chars.len();
    let mut from: usize = 0;
    assert(s@.skip(0) =~= s@);
    while from < len && char_is_space(chars[from])
        invariant
            from <= len,
            len == chars@.len(),
            chars@ == s@,
            trim_start_by(s@, space()) == trim_start_by(s@.skip(from as int), space()),
        decreases len - from,
    {
        proof {
            assert(s@.skip(from as int).drop_first() =~= s@.skip(from + 1));
            assert(s@.skip(from as int)[0] == s@[from as int]);
        }
        from = from + 1;
    }
    let ghost front = s@.skip(from as int);
    proof {
        if from < len {
            assert(front[0] == s@[from as int]);
        }
        assert(front == trim_start_by(s@, space()));
    }
    let mut to: usize = len;
    assert(front.take(to - from) =~= front);
    while to > from && char_is_space(chars[to - 1])
        invariant
            from <= to <= len,
            len == chars@.len(),
            chars@ == s@,
            front == s@.skip(from as int),
            trim_end_by(front, space()) == trim_end_by(front.take(to - from), space()),
        decreases to,
    {
        proof {
            assert(front.take(to - from).drop_last() =~= front.take(to - from - 1));
            assert(front.take(to - from).last() == s@[to - 1]);
        }
        to = to - 1;
    }
    proof {
        if to > from {
            assert(front[to - from - 1] == s@[to - 1]);
        }
        lemma_trim_end_cut(front, space(), to - from);
        assert(s@.subrange(from as int, to as int) =~= front.take(to - from));
    }
    s.substring_char(from, to)
}

/// The position of the first `c` in `s`.
pub fn find_char(s: &str, c: char) -> (r: Option<usize>)
    ensures
        match r {
            Some(i) => i < s@.len() && s@[i as int] == c && forall|j: int|
                0 <= j < i ==> s@[j] != c,
            None => !s@.contains(c),
        },
{
    let chars = chars_of(s);
    let mut i: usize = 0;
    while i < chars.len()
        invariant
            i <= chars@.len(),
            chars@ == s@,
            forall|j: int| 0 <= j < i ==> s@[j] != c,
        decreases chars@.len() - i,
    {
        if chars[i] == c {
            return Some(i);
        }
        i = i + 1;
    }
    None
}

/// `s` with every ASCII capital turned into its small letter.
pub fn to_lower(s: &str) -> (r: String)
    ensures
        r@ == lower_text(s@),
{
    let mut out = String::new();
    for c in it: s.chars()
        invariant
            out@ == lower_text(it.seq().take(it.index() as int)),
            it.seq() == s@,
    {
        proof {
            assert(it.seq().take(it.index() + 1) =~= it.seq().take(it.index() as int).push(c));
        }
        out.push(lower_of(c));
        assert(out@ =~= lower_text(it.seq().take(it.index() + 1)));
    }
    assert(s@.take(s@.len() as int) =~= s@);
    out
}

/// Whether the two texts are equal once ASCII capitals are turned into small letters.
pub fn same_text_ignoring_case(a: &str, b: &str) -> (r: bool)
    ensures
        r == (lower_text(a@) == lower_text(b@)),
{
    let x = to_lower(a);
    let y = to_lower(b);
    x == y
}

/// `a` followed by `b`.
pub fn join2(a: &str, b: &str) -> (r: String)
    ensures
        r@ == a@ + b@,
{
    let mut out = a.to_string();
    out.append(b);
    out
}

/// `a`, `b` and `c`, one behind the other.
pub fn join3(a: &str, b: &str, c: &str) -> (r: String)
    ensures
        r@ == a@ + b@ + c@,
{
    let mut out = a.to_string();
    out.append(b);
    out.append(c);
    out
}

/// `n` written in decimal.
pub fn decimal_text(n: u64) -> (r: String)
    ensures
        r@ == decimal(n as nat),
    decreases n,
{
    if n < 10 {
        let d: u8 = 48 + n as u8;
        let mut out = String::new();
        out.push(d as char);
        assert(out@ =~= decimal(n as nat));
        out
    } else {
        let mut out = decimal_text(n / 10);
        let d: u8 = 48 + (n % 10) as u8;
        out.push(d as char);
        out
    }
}

/// The parts of `s` between occurrences of `c`.
pub fn split_text(s: &str, c: char) -> (r: Vec<String>)
    ensures
        texts(r@) == split_on(s@, c),
        r@.len() >= 1,
{
    let chars = chars_of(s);
    let mut parts: Vec<String> = Vec::new();
    let mut part = String::new();
    let mut i: usize = 0;
    assert(texts(parts@).push(part@) =~= split_on(s@.take(0), c));
    while i < chars.len()
        invariant
            i <= chars@.len(),
            chars@ == s@,
            texts(parts@).push(part@) == split_on(s@.take(i as int), c),
        decreases chars@.len() - i,
    {
        let ghost before = texts(parts@);
        let ghost open_part = part@;
        proof {
            assert(s@.take(i + 1).drop_last() =~= s@.take(i as int));
            assert(s@.take(i + 1).last() == s@[i as int]);
        }
        let x: char = chars[i];
        if x == c {
            parts.push(part);
            part = String::new();
            assert(texts(parts@) =~= before.push(open_part));
            assert(part@ =~= Seq::empty());
        } else {
            part.push(x);
            assert(before.push(open_part).update(before.len() as int, open_part.push(x))
                =~= before.push(part@));
        }
        i = i + 1;
    }
    assert(s@.take(i as int) =~= s@);
    let ghost before = texts(parts@);
    let ghost last = part@;
    parts.push(part);
    assert(texts(parts@) =~= before.push(last));
    parts
}

/// `s` without `prefix`, where it begins with it.
pub fn strip_prefix<'a>(s: &'a str, prefix: &str) -> (r: Option<&'a str>)
    ensures
        match r {
            Some(rest) => without_prefix(s@, prefix@) == Some(rest@),
            None => without_prefix(s@, prefix@) is None,
        },
{
    if starts_with(s, prefix) {
        let n: usize = prefix.unicode_len();
        let rest = s.substring_char(n, s.unicode_len());
        assert(rest@ =~= s@.skip(prefix@.len() as int));
        Some(rest)
    } else {
        None
    }
}

/// What follows the first occurrence of `part` in `s`.
pub fn text_after<'a>(s: &'a str, part: &str) -> (r: Option<&'a str>)
    ensures
        match r {
            Some(rest) => rest_after(s@, part@) == Some(rest@),
            None => rest_after(s@, part@) is None,
        },
    decreases s@.len(),
{
    match strip_prefix(s, part) {
        Some(rest) => Some(rest),
        None => {
            let n: usize = s.unicode_len();
            if n == 0 {
                None
            } else {
                let tail = s.substring_char(1, n);
                assert(tail@ =~= s@.drop_first());
                text_after(tail, part)
            }
        },
    }
}

/// `s` without any number of trailing occurrences of `suffix`.
pub fn trim_end_text<'a>(s: &'a str, suffix: &str) -> (r: &'a str)
    ensures
        r@ == trim_suffix(s@, suffix@),
    decreases s@.len(),
{
    let k: usize = suffix.unicode_len();
    if k > 0 && ends_with(s, suffix) {
        let n: usize = s.unicode_len();
        let front = s.substring_char(0, n - k);
        assert(front@ =~= s@.take(s@.len() - suffix@.len()));
        trim_end_text(front, suffix)
    } else {
        s
    }
}

/// Whether `a` comes before `b` in lexicographic order, or equals it.
pub fn text_at_most(a: &str, b: &str) -> (r: bool)
    ensures
        r == text_le(a@, b@),
{
    let x = chars_of(a);
    let y = chars_of(b);
    let mut i: usize = 0;
    proof {
        assert(a@.skip(0) =~= a@);
        assert(b@.skip(0) =~= b@);
    }
    while i < x.len() && i < y.len() && x[i] == y[i]
        invariant
            i <= x@.len(),
            i <= y@.len(),
            x@ == a@,
            y@ == b@,
            text_le(a@, b@) == text_le(a@.skip(i as int), b@.skip(i as int)),
        decreases x@.len() - i,
    {
        proof {
            assert(a@.skip(i as int).drop_first() =~= a@.skip(i + 1));
            assert(b@.skip(i as int).drop_first() =~= b@.skip(i + 1));
            assert(a@.skip(i as int)[0] == a@[i as int]);
            assert(b@.skip(i as int)[0] == b@[i as int]);
        }
        i = i + 1;
    }
    proof {
        if i < x.len() {
            assert(a@.skip(i as int)[0] == a@[i as int]);
        }
        if i < y.len() {
            assert(b@.skip(i as int)[0] == b@[i as int]);
        }
    }
    if i == x.len() {
        true
    } else if i == y.len() {
        false
    } else {
        let c: char = x[i];
        let d: char = y[i];
        c < d
    }
}

/// Lexicographic order is total.
pub proof fn law_text_order_total(a: Seq<char>, b: Seq<char>)
    ensures
        text_le(a, b) || text_le(b, a),
    decreases a.len(),
{
    if a.len() > 0 && b.len() > 0 && a[0] == b[0] {
        law_text_order_total(a.drop_first(), b.drop_first());
    }
}

/// Texts that come before each other in lexicographic order are equal.
pub proof fn law_text_order_antisymmetric(a: Seq<char>, b: Seq<char>)
    requires
        text_le(a, b),
        text_le(b, a),
    ensures
        a == b,
    decreases a.len(),
{
    if a.len() > 0 && b.len() > 0 {
        law_text_order_antisymmetric(a.drop_first(), b.drop_first());
        assert(a =~= seq![a[0]] + a.drop_first());
        assert(b =~= seq![b[0]] + b.drop_first());
    } else {
        assert(a =~= b);
    }
}

/// Lexicographic order is transitive.
pub proof fn law_text_order_transitive(a: Seq<char>, b: Seq<char>, c: Seq<char>)
    requires
        text_le(a, b),
        text_le(b, c),
    ensures
        text_le(a, c),
    decreases a.len(),
{
    if a.len() > 0 && b.len() > 0 && c.len() > 0 && a[0] == b[0] && b[0] == c[0] {
        law_text_order_transitive(a.drop_first(), b.drop_first(), c.drop_first());
    }
}

} // verus!
