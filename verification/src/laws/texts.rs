//! Texts: what it means to find, cut and trim them, and to write numbers.

use vstd::prelude::*;
use vstd::string::*;

use crate::key_map::precedes;
use crate::text::{
    decimal, has_part, is_blank, is_space, last_position, strip_or_keep, trimmed, trimmed_end,
    trimmed_end_of, trimmed_start, with_slashes, without_prefix, without_suffix,
};

verus! {

/// A text has a part exactly if it is something, the part, and something else.
pub proof fn lemma_parts(s: Seq<char>, part: Seq<char>)
    ensures
        has_part(s, part) <==> exists|before: Seq<char>, rest: Seq<char>|
            s == #[trigger] (before + part + rest),
{
    if has_part(s, part) {
        let i = choose|i: int|
            0 <= i <= s.len() - part.len() && #[trigger] s.subrange(i, i + part.len()) == part;
        let before = s.take(i);
        let rest = s.skip(i + part.len());
        assert(s =~= s.take(i) + s.subrange(i, i + part.len()) + rest);
        assert(s == before + part + rest);
    }
    if exists|before: Seq<char>, rest: Seq<char>| s == #[trigger] (before + part + rest) {
        let (before, rest) = choose|before: Seq<char>, rest: Seq<char>|
            s == #[trigger] (before + part + rest);
        let i = before.len() as int;
        assert(s.subrange(i, i + part.len()) =~= part);
    }
}

/// A prefix is cut off exactly if the text begins with it, and then the rest remains.
pub proof fn lemma_prefixes(s: Seq<char>, p: Seq<char>)
    ensures
        forall|rest: Seq<char>|
            s == #[trigger] (p + rest) ==> without_prefix(s, p) == Some(rest) && strip_or_keep(s, p)
                == rest,
        (forall|rest: Seq<char>| s != #[trigger] (p + rest)) ==> without_prefix(s, p) is None
            && strip_or_keep(s, p) == s,
{
    assert forall|rest: Seq<char>| s == #[trigger] (p + rest) implies without_prefix(s, p) == Some(
        rest,
    ) && strip_or_keep(s, p) == rest by {
        assert((p + rest).subrange(0, p.len() as int) =~= p);
        assert(s.skip(p.len() as int) =~= rest);
    }
    if p.is_prefix_of(s) {
        assert(s =~= p + s.skip(p.len() as int));
    }
}

/// A suffix is cut off exactly if the text ends with it, and then the rest remains.
pub proof fn lemma_suffixes(s: Seq<char>, p: Seq<char>)
    ensures
        forall|rest: Seq<char>|
            s == #[trigger] (rest + p) ==> without_suffix(s, p) == Some(rest),
        (forall|rest: Seq<char>| s != #[trigger] (rest + p)) ==> without_suffix(s, p) is None,
{
    assert forall|rest: Seq<char>| s == #[trigger] (rest + p) implies without_suffix(s, p) == Some(
        rest,
    ) by {
        assert((rest + p).subrange(rest.len() as int, s.len() as int) =~= p);
        assert(s.take(s.len() - p.len()) =~= rest);
    }
    if p.is_suffix_of(s) {
        assert(s =~= s.take(s.len() - p.len()) + p);
    }
}

/// What is cut off the end are occurrences of the character, all of them, and nothing else.
pub proof fn lemma_trimmed_ends(s: Seq<char>, c: char)
    ensures
        ({
            let t = trimmed_end_of(s, c);
            &&& t.len() <= s.len()
            &&& t == s.take(t.len() as int)
            &&& forall|i: int| t.len() <= i < s.len() ==> #[trigger] s[i] == c
            &&& t.len() > 0 ==> t.last() != c
        }),
    decreases s.len(),
{
    if s.len() > 0 && s.last() == c {
        let rest = s.drop_last();
        lemma_trimmed_ends(rest, c);
        let t = trimmed_end_of(s, c);
        assert(t =~= s.take(t.len() as int));
        assert forall|i: int| t.len() <= i < s.len() implies #[trigger] s[i] == c by {
            if i < rest.len() {
                assert(rest[i] == s[i]);
            }
        }
    } else {
        assert(s =~= s.take(s.len() as int));
    }
}

/// White space is what Unicode says it is.
pub proof fn lemma_white_space(c: char)
    ensures
        is_space(c) <==> {
            let n = c as u32;
            ||| 9 <= n <= 13
            ||| n == 32
            ||| n == 133
            ||| n == 160
            ||| n == 5760
            ||| 8192 <= n <= 8202
            ||| n == 8232
            ||| n == 8233
            ||| n == 8239
            ||| n == 8287
            ||| n == 12288
        },
{
}

proof fn lemma_trimmed_space_end(s: Seq<char>)
    ensures
        ({
            let t = trimmed_end(s);
            &&& t.len() <= s.len()
            &&& t == s.take(t.len() as int)
            &&& forall|i: int| t.len() <= i < s.len() ==> is_space(#[trigger] s[i])
            &&& t.len() > 0 ==> !is_space(t.last())
        }),
    decreases s.len(),
{
    if s.len() > 0 && is_space(s.last()) {
        let rest = s.drop_last();
        lemma_trimmed_space_end(rest);
        let t = trimmed_end(s);
        assert(t =~= s.take(t.len() as int));
        assert forall|i: int| t.len() <= i < s.len() implies is_space(#[trigger] s[i]) by {
            if i < rest.len() {
                assert(rest[i] == s[i]);
            }
        }
    } else {
        assert(s =~= s.take(s.len() as int));
    }
}

proof fn lemma_trimmed_space_start(s: Seq<char>)
    ensures
        ({
            let t = trimmed_start(s);
            let n = s.len() - t.len();
            &&& t.len() <= s.len()
            &&& t == s.skip(n)
            &&& forall|i: int| 0 <= i < n ==> is_space(#[trigger] s[i])
            &&& t.len() > 0 ==> !is_space(t.first())
        }),
    decreases s.len(),
{
    if s.len() > 0 && is_space(s.first()) {
        let rest = s.drop_first();
        lemma_trimmed_space_start(rest);
        let t = trimmed_start(s);
        assert(t =~= s.skip(s.len() - t.len()));
        assert forall|i: int| 0 <= i < s.len() - t.len() implies is_space(#[trigger] s[i]) by {
            if i > 0 {
                assert(rest[i - 1] == s[i]);
            }
        }
    } else {
        assert(s =~= s.skip(0));
    }
}

/// A trimmed text is the text between the white space at its start and at its end: only white
/// space is cut off, and none is left at either side.
pub proof fn lemma_trimmed_texts(s: Seq<char>)
    ensures
        exists|i: int, j: int| #![trigger s.subrange(i, j)]
            {
                &&& 0 <= i <= j <= s.len()
                &&& trimmed(s) == s.subrange(i, j)
                &&& forall|k: int| 0 <= k < i || j <= k < s.len() ==> is_space(#[trigger] s[k])
                &&& i < j ==> !is_space(s[i]) && !is_space(s[j - 1])
            },
{
    let t = trimmed_start(s);
    let u = trimmed_end(t);
    lemma_trimmed_space_start(s);
    lemma_trimmed_space_end(t);
    let i = s.len() - t.len();
    let j = i + u.len();
    assert(trimmed(s) =~= s.subrange(i, j));
    assert forall|k: int| 0 <= k < i || j <= k < s.len() implies is_space(#[trigger] s[k]) by {
        if j <= k {
            assert(t[k - i] == s[k]);
        }
    }
}

/// A text is blank exactly if all of it is white space.
pub proof fn lemma_blank_texts(s: Seq<char>)
    ensures
        is_blank(s) <==> forall|i: int| 0 <= i < s.len() ==> is_space(#[trigger] s[i]),
{
    lemma_trimmed_texts(s);
    let (i, j) = choose|i: int, j: int| #![trigger s.subrange(i, j)]
        {
            &&& 0 <= i <= j <= s.len()
            &&& trimmed(s) == s.subrange(i, j)
            &&& forall|k: int| 0 <= k < i || j <= k < s.len() ==> is_space(#[trigger] s[k])
            &&& i < j ==> !is_space(s[i]) && !is_space(s[j - 1])
        };
    if i < j {
        assert(!is_space(s[i]));
    }
}

/// Every backslash becomes a slash, and nothing else changes.
pub proof fn lemma_slashes(s: Seq<char>)
    ensures
        with_slashes(s).len() == s.len(),
        forall|i: int|
            0 <= i < s.len() ==> #[trigger] with_slashes(s)[i] == (if s[i] == '\\' {
                '/'
            } else {
                s[i]
            }),
{
}

/// The last position of a character is that of an occurrence that no other follows.
pub proof fn lemma_last_positions(s: Seq<char>, c: char)
    ensures
        match last_position(s, c) {
            Some(n) => 0 <= n < s.len() && s[n] == c && forall|i: int|
                n < i < s.len() ==> #[trigger] s[i] != c,
            None => forall|i: int| 0 <= i < s.len() ==> #[trigger] s[i] != c,
        },
    decreases s.len(),
{
    if s.len() > 0 && s.last() != c {
        let rest = s.drop_last();
        lemma_last_positions(rest, c);
        assert forall|i: int|
            (last_position(rest, c) is Some ==> last_position(rest, c)->0 < i) && 0 <= i
                < s.len() implies #[trigger] s[i] != c by {
            if i < rest.len() {
                assert(rest[i] == s[i]);
            }
        }
    }
}

/// A number is written with its decimal digits, the last one last, and without zeros before it.
pub proof fn lemma_decimals(n: nat, d: nat)
    requires
        d < 10,
    ensures
        decimal(d).len() == 1,
        decimal(d)[0] as u32 == '0' as u32 + d,
        n > 0 ==> decimal(10 * n + d) == decimal(n) + decimal(d),
{
    if n > 0 {
        assert((10 * n + d) / 10 == n);
        assert((10 * n + d) % 10 == d);
        assert(decimal(10 * n + d) =~= decimal(n) + decimal(d));
    }
}

/// Texts stand in the order of their first different characters, and a text before those that
/// begin with it.
pub proof fn lemma_order_of_texts(a: Seq<char>, b: Seq<char>, n: int)
    requires
        0 <= n <= a.len(),
        n <= b.len(),
        forall|i: int| 0 <= i < n ==> #[trigger] a[i] == b[i],
        n == a.len() || n == b.len() || a[n] != b[n],
    ensures
        precedes(a, b) <==> {
            ||| n == a.len() && n < b.len()
            ||| n < a.len() && n < b.len() && a[n] < b[n]
        },
    decreases n,
{
    if n > 0 {
        assert(a[0] == b[0]);
        assert forall|i: int| 0 <= i < n - 1 implies #[trigger] a.drop_first()[i]
            == b.drop_first()[i] by {
            assert(a[i + 1] == b[i + 1]);
        }
        lemma_order_of_texts(a.drop_first(), b.drop_first(), n - 1);
    }
}

} // verus!
