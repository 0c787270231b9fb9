//! What the operations on text promise of their results.

use vstd::prelude::*;

use crate::text::decimal;
use crate::text::is_ascii_alnum;
use crate::text::is_space;
use crate::text::lower_char;
use crate::text::lower_text;
use crate::text::only;
use crate::text::opt_text;
use crate::text::rest_after;
use crate::text::space;
use crate::text::split_on;
use crate::text::text_le;
use crate::text::texts;
use crate::text::trim_by;
use crate::text::trim_end_by;
use crate::text::trim_start_by;
use crate::text::trim_suffix;
use crate::text::without_prefix;

verus! {

/// White space is the 25 characters with that property in Unicode, and no other.
pub proof fn law_white_space(c: char)
    ensures
        is_space(c) <==> seq![
            0x9u32,
            0xa,
            0xb,
            0xc,
            0xd,
            0x20,
            0x85,
            0xa0,
            0x1680,
            0x2000,
            0x2001,
            0x2002,
            0x2003,
            0x2004,
            0x2005,
            0x2006,
            0x2007,
            0x2008,
            0x2009,
            0x200a,
            0x2028,
            0x2029,
            0x202f,
            0x205f,
            0x3000,
        ].contains(c as u32),
        space()(c) <==> is_space(c),
{
    let all = seq![
        0x9u32,
        0xa,
        0xb,
        0xc,
        0xd,
        0x20,
        0x85,
        0xa0,
        0x1680,
        0x2000,
        0x2001,
        0x2002,
        0x2003,
        0x2004,
        0x2005,
        0x2006,
        0x2007,
        0x2008,
        0x2009,
        0x200a,
        0x2028,
        0x2029,
        0x202f,
        0x205f,
        0x3000,
    ];
    if is_space(c) {
        let n = c as u32;
        let k = if n <= 0xd {
            n - 9
        } else if n == 0x20 {
            5
        } else if n == 0x85 {
            6
        } else if n == 0xa0 {
            7
        } else if n == 0x1680 {
            8
        } else if n <= 0x200a {
            n - 0x2000 + 9
        } else if n == 0x2028 {
            20
        } else if n == 0x2029 {
            21
        } else if n == 0x202f {
            22
        } else if n == 0x205f {
            23
        } else {
            24int
        };
        assert(all[k] == n);
    }
}

/// The predicate for one character holds of that character alone.
pub proof fn law_only(c: char, x: char)
    ensures
        only(c)(x) <==> x == c,
{
}

/// The letters and digits of ASCII are those with the codes 48 to 57, 65 to 90 and 97 to 122.
pub proof fn law_ascii_letters_and_digits(c: char)
    ensures
        is_ascii_alnum(c) <==> (c as u32 >= 48 && !(c as u32 >= 58 && c as u32 <= 64) && !(c as u32
            >= 91 && c as u32 <= 96) && c as u32 <= 122),
{
}

/// Lowering moves the codes 65 to 90 up by 32, keeps every other character, and keeps the length.
pub proof fn law_lowering(s: Seq<char>, i: int)
    requires
        0 <= i < s.len(),
    ensures
        lower_text(s).len() == s.len(),
        s[i] as u32 >= 65 && s[i] as u32 <= 90 ==> lower_text(s)[i] as u32 == s[i] as u32 + 32,
        !(s[i] as u32 >= 65 && s[i] as u32 <= 90) ==> lower_text(s)[i] == s[i],
        lower_text(s)[i] == lower_char(s[i]),
{
}

/// Cutting at the end takes away characters of the kind only, and as many as there are.
pub proof fn law_trim_end(s: Seq<char>, drop: spec_fn(char) -> bool)
    ensures
        ({
            let t = trim_end_by(s, drop);
            &&& t.len() <= s.len()
            &&& t == s.take(t.len() as int)
            &&& forall|i: int| t.len() <= i < s.len() ==> drop(#[trigger] s[i])
            &&& t.len() > 0 ==> !drop(s[t.len() - 1])
        }),
    decreases s.len(),
{
    if s.len() > 0 && drop(s.last()) {
        let short = s.drop_last();
        law_trim_end(short, drop);
        let t = trim_end_by(s, drop);
        assert(s.take(t.len() as int) =~= short.take(t.len() as int));
        assert forall|i: int| t.len() <= i < s.len() implies drop(#[trigger] s[i]) by {
            if i < short.len() {
                assert(s[i] == short[i]);
            }
        }
        if t.len() > 0 {
            assert(s[t.len() - 1] == short[t.len() - 1]);
        }
    } else {
        assert(s.take(s.len() as int) =~= s);
    }
}

/// Cutting at the start takes away characters of the kind only, and as many as there are.
pub proof fn law_trim_start(s: Seq<char>, drop: spec_fn(char) -> bool)
    ensures
        ({
            let t = trim_start_by(s, drop);
            let k = s.len() - t.len();
            &&& t.len() <= s.len()
            &&& t == s.skip(k)
            &&& forall|i: int| 0 <= i < k ==> drop(#[trigger] s[i])
            &&& t.len() > 0 ==> !drop(s[k])
        }),
    decreases s.len(),
{
    if s.len() > 0 && drop(s[0]) {
        let rest = s.drop_first();
        law_trim_start(rest, drop);
        let t = trim_start_by(s, drop);
        let k = s.len() - t.len();
        assert(s.skip(k) =~= rest.skip(k - 1));
        assert forall|i: int| 0 <= i < k implies drop(#[trigger] s[i]) by {
            if i > 0 {
                assert(s[i] == rest[i - 1]);
            }
        }
        if t.len() > 0 {
            assert(s[k] == rest[k - 1]);
        }
    } else {
        assert(s.skip(0) =~= s);
    }
}

/// Cutting at both ends leaves a part of the text, with nothing but characters of the kind around it
/// and none of the kind at its own ends.
pub proof fn law_trim(s: Seq<char>, drop: spec_fn(char) -> bool)
    ensures
        exists|a: int, b: int|
            0 <= a <= b <= s.len() && trim_by(s, drop) == #[trigger] s.subrange(a, b) && (forall|
                i: int,
            |
                0 <= i < a || b <= i < s.len() ==> drop(#[trigger] s[i])) && (a < b ==> !drop(s[a])
                && !drop(s[b - 1])),
{
    let t = trim_start_by(s, drop);
    let u = trim_by(s, drop);
    law_trim_start(s, drop);
    law_trim_end(t, drop);
    let a = s.len() - t.len();
    let b = a + u.len();
    assert(u =~= s.subrange(a, b));
    assert forall|i: int| 0 <= i < a || b <= i < s.len() implies drop(#[trigger] s[i]) by {
        if b <= i {
            assert(s[i] == t[i - a]);
        }
    }
    if a < b {
        assert(s[b - 1] == t[b - 1 - a]);
    }
}

/// Trimming white space leaves a part of the text, with nothing but white space around it and none
/// at its own ends.
pub proof fn law_trim_white_space(s: Seq<char>)
    ensures
        exists|a: int, b: int|
            0 <= a <= b <= s.len() && trim_by(s, space()) == #[trigger] s.subrange(a, b) && (forall|
                i: int,
            |
                0 <= i < a || b <= i < s.len() ==> is_space(#[trigger] s[i])) && (a < b
                ==> !is_space(s[a]) && !is_space(s[b - 1])),
{
    law_trim(s, space());
    let (a, b) = choose|a: int, b: int|
        0 <= a <= b <= s.len() && trim_by(s, space()) == #[trigger] s.subrange(a, b) && (forall|
            i: int,
        |
            0 <= i < a || b <= i < s.len() ==> space()(#[trigger] s[i])) && (a < b ==> !space()(
            s[a],
        ) && !space()(s[b - 1]));
    assert(trim_by(s, space()) == s.subrange(a, b));
    assert forall|i: int| 0 <= i < a || b <= i < s.len() implies is_space(#[trigger] s[i]) by {
        assert(space()(s[i]));
    }
}

/// Cutting slashes at the end leaves the text up to them.
pub proof fn law_trim_slashes(s: Seq<char>)
    ensures
        ({
            let t = trim_end_by(s, only('/'));
            &&& t.len() <= s.len()
            &&& t == s.take(t.len() as int)
            &&& forall|i: int| t.len() <= i < s.len() ==> #[trigger] s[i] == '/'
            &&& t.len() > 0 ==> t.last() != '/'
        }),
{
    law_trim_end(s, only('/'));
    let t = trim_end_by(s, only('/'));
    assert forall|i: int| t.len() <= i < s.len() implies #[trigger] s[i] == '/' by {
        assert(only('/')(s[i]));
    }
}

/// The texts with `c` between each two of them.
pub open spec fn joined(parts: Seq<Seq<char>>, c: char) -> Seq<char>
    decreases parts.len(),
{
    if parts.len() == 0 {
        Seq::empty()
    } else if parts.len() == 1 {
        parts[0]
    } else {
        joined(parts.drop_last(), c).push(c) + parts.last()
    }
}

/// Splitting at `c` is undone by putting `c` between the parts, none of which holds it.
pub proof fn law_split_is_undone(s: Seq<char>, c: char)
    ensures
        split_on(s, c).len() > 0,
        joined(split_on(s, c), c) == s,
        forall|i: int|
            0 <= i < split_on(s, c).len() ==> !(#[trigger] split_on(s, c)[i]).contains(c),
    decreases s.len(),
{
    let parts = split_on(s, c);
    if s.len() > 0 {
        let short = s.drop_last();
        let front = split_on(short, c);
        let x = s.last();
        law_split_is_undone(short, c);
        assert(short.push(x) =~= s);
        if x == c {
            assert(parts.drop_last() =~= front);
            assert(joined(parts, c) =~= short.push(c));
        } else {
            let last = front.last().push(x);
            let k = front.len() - 1;
            assert(parts.drop_last() =~= front.drop_last());
            assert(parts.last() == last);
            if front.len() == 1 {
                assert(joined(front, c) == front[0]);
                assert(joined(parts, c) == parts[0]);
            } else {
                assert(joined(front, c) == joined(front.drop_last(), c).push(c) + front.last());
                assert(joined(parts, c) =~= joined(front, c).push(x));
            }
            assert(!last.contains(c)) by {
                if last.contains(c) {
                    let i = choose|i: int| 0 <= i < last.len() && last[i] == c;
                    assert(front[k][i] == c);
                    assert(front[k].contains(c));
                }
            }
        }
        assert forall|i: int| 0 <= i < parts.len() implies !(#[trigger] parts[i]).contains(c) by {
            if i < front.len() - 1 || (x == c && i < front.len()) {
                assert(parts[i] == front[i]);
            }
        }
    } else {
        assert(joined(parts, c) =~= s);
    }
}

/// Whether `part` stands in `s` at `i`.
pub open spec fn stands_at(part: Seq<char>, s: Seq<char>, i: int) -> bool {
    0 <= i && i + part.len() <= s.len() && s.subrange(i, i + part.len()) == part
}

/// What follows the first occurrence of a part is told exactly where the part occurs.
pub proof fn law_rest_after(s: Seq<char>, part: Seq<char>)
    ensures
        match rest_after(s, part) {
            Some(rest) => exists|i: int|
                #[trigger] stands_at(part, s, i) && rest == s.skip(i + part.len()) && forall|j: int|
                    0 <= j < i ==> !#[trigger] stands_at(part, s, j),
            None => forall|i: int| !#[trigger] stands_at(part, s, i),
        },
    decreases s.len(),
{
    if part.is_prefix_of(s) {
        assert(s.subrange(0, part.len() as int) =~= part);
        assert(stands_at(part, s, 0));
    } else {
        assert(!stands_at(part, s, 0)) by {
            if stands_at(part, s, 0) {
                assert(part =~= s.subrange(0, part.len() as int));
            }
        }
        if s.len() == 0 {
            assert forall|i: int| !#[trigger] stands_at(part, s, i) by {
                if stands_at(part, s, i) {
                    assert(i == 0);
                }
            }
        } else {
            let tail = s.drop_first();
            law_rest_after(tail, part);
            assert forall|i: int| i > 0 implies #[trigger] stands_at(part, s, i) == stands_at(
                part,
                tail,
                i - 1,
            ) by {
                if i + part.len() <= s.len() {
                    assert(s.subrange(i, i + part.len()) =~= tail.subrange(
                        i - 1,
                        i - 1 + part.len(),
                    ));
                }
            }
            match rest_after(tail, part) {
                Some(rest) => {
                    let i = choose|i: int|
                        #[trigger] stands_at(part, tail, i) && rest == tail.skip(i + part.len())
                            && forall|j: int|
                            0 <= j < i ==> !#[trigger] stands_at(part, tail, j);
                    assert(stands_at(part, s, i + 1));
                    assert(s.skip(i + 1 + part.len()) =~= tail.skip(i + part.len()));
                    assert forall|j: int| 0 <= j < i + 1 implies !#[trigger] stands_at(
                        part,
                        s,
                        j,
                    ) by {
                        if j > 0 {
                            assert(!stands_at(part, tail, j - 1));
                        }
                    }
                },
                None => {
                    assert forall|i: int| !#[trigger] stands_at(part, s, i) by {
                        if i > 0 {
                            assert(!stands_at(part, tail, i - 1));
                        }
                    }
                },
            }
        }
    }
}

/// A suffix is cut as often as it is there, and a text that does not end in it stays.
pub proof fn law_trim_suffix(s: Seq<char>, suffix: Seq<char>)
    requires
        suffix.len() > 0,
    ensures
        trim_suffix(s + suffix, suffix) == trim_suffix(s, suffix),
        !suffix.is_suffix_of(s) ==> trim_suffix(s, suffix) == s,
{
    let all = s + suffix;
    assert(suffix.is_suffix_of(all)) by {
        assert(all.subrange(all.len() - suffix.len(), all.len() as int) =~= suffix);
    }
    assert(all.take(all.len() - suffix.len()) =~= s);
}

/// A prefix is taken off exactly where the text begins with it.
pub proof fn law_without_prefix(s: Seq<char>, prefix: Seq<char>, rest: Seq<char>)
    ensures
        without_prefix(s, prefix) == Some(rest) <==> s == prefix + rest,
{
    if s == prefix + rest {
        assert(s.take(prefix.len() as int) =~= prefix);
        assert(s.skip(prefix.len() as int) =~= rest);
        assert(prefix.is_prefix_of(s));
    }
    if without_prefix(s, prefix) == Some(rest) {
        assert(s =~= prefix + rest);
    }
}

/// The first character in which two texts differ orders them by its code; where one begins the
/// other, the shorter one comes first.
pub proof fn law_text_order_is_lexicographic(a: Seq<char>, b: Seq<char>, k: int)
    requires
        0 <= k <= a.len(),
        k <= b.len(),
        forall|i: int| 0 <= i < k ==> a[i] == b[i],
    ensures
        k == a.len() ==> text_le(a, b),
        k == a.len() && k < b.len() ==> !text_le(b, a),
        k < a.len() && k < b.len() && a[k] < b[k] ==> text_le(a, b) && !text_le(
            b,
            a,
        ),
    decreases k,
{
    if k > 0 {
        let x = a.drop_first();
        let y = b.drop_first();
        assert forall|i: int| 0 <= i < k - 1 implies x[i] == y[i] by {
            assert(a[i + 1] == b[i + 1]);
        }
        law_text_order_is_lexicographic(x, y, k - 1);
    }
}

/// The number that a text of digits stands for.
pub open spec fn number(digits: Seq<char>) -> int
    decreases digits.len(),
{
    if digits.len() == 0 {
        0
    } else {
        10 * number(digits.drop_last()) + (digits.last() as u32 - 48)
    }
}

/// A number in decimal is made of digits, stands for the number, and has no leading zero unless it
/// is zero.
pub proof fn law_decimal(n: nat)
    ensures
        number(decimal(n)) == n,
        decimal(n).len() > 0,
        forall|i: int|
            0 <= i < decimal(n).len() ==> 48 <= (#[trigger] decimal(n)[i]) as u32 && decimal(
                n,
            )[i] as u32 <= 57,
        decimal(n)[0] as u32 == 48 ==> n == 0 && decimal(n).len() == 1,
    decreases n,
{
    let d = decimal(n);
    if n < 10 {
        assert(d.drop_last() =~= Seq::empty());
        assert(number(d.drop_last()) == 0);
    } else {
        law_decimal(n / 10);
        assert(d.drop_last() =~= decimal(n / 10));
        assert forall|i: int| 0 <= i < d.len() implies 48 <= (#[trigger] d[i]) as u32 && d[i] as u32
            <= 57 by {
            if i < d.len() - 1 {
                assert(d[i] == decimal(n / 10)[i]);
            }
        }
        assert(d[0] == decimal(n / 10)[0]);
    }
}

/// A sequence of strings is seen as the sequence of their texts, an optional one as its text.
pub proof fn law_text_views(v: Seq<String>, s: String)
    ensures
        texts(v).len() == v.len(),
        forall|i: int| 0 <= i < v.len() ==> #[trigger] texts(v)[i] == v[i]@,
        opt_text(Some(s)) == Some(s@),
        opt_text(None) is None,
{
}

} // verus!
