//! What reading, cutting and searching texts means.
use vstd::prelude::*;
use crate::text::{
    decimal, ends_with_text, find_char, find_char_from, find_from, find_text, is_white, joined,
    lemma_decimal, signed_decimal, signed_value, split_at_char, split_once_at, trimmed,
    trimmed_end, trimmed_start, unsigned_value, without_end, without_start,
};

verus! {

/// A number is read back from its digits, with or without a plus sign, if and
/// only if it is within the bound.
pub proof fn law_number_is_read_back(n: nat, max: nat)
    ensures
        unsigned_value(decimal(n), max) == if n <= max {
            Some(n)
        } else {
            None
        },
        unsigned_value(seq!['+'] + decimal(n), max) == if n <= max {
            Some(n)
        } else {
            None
        },
{
    lemma_decimal(n);
    let d = decimal(n);
    assert(d[0] != '+');
    let p = seq!['+'] + d;
    assert(p[0] == '+');
    assert(p.skip(1) =~= d);
}

/// A signed number of 64 bits is read back from its digits.
pub proof fn law_signed_number_is_read_back(n: int)
    requires
        i64::MIN <= n <= i64::MAX,
    ensures
        signed_value(signed_decimal(n)) == Some(n),
{
    if n < 0 {
        let m = (-n) as nat;
        lemma_decimal(m);
        let s = seq!['-'] + decimal(m);
        assert(s[0] == '-');
        assert(s.skip(1) =~= decimal(m));
    } else {
        lemma_decimal(n as nat);
        law_number_is_read_back(n as nat, 0x7fff_ffff_ffff_ffff);
        assert(decimal(n as nat)[0] != '-');
    }
}

/// Digits are written from the left, each worth ten of the next.
pub proof fn law_digits_are_decimal(a: nat, d: nat)
    requires
        0 < a,
        d < 10,
    ensures
        decimal(10 * a + d) == decimal(a).push(('0' as int + d) as char),
        decimal(d) == seq![('0' as int + d) as char],
        signed_decimal(-(a as int)) == seq!['-'] + decimal(a),
        signed_decimal(a as int) == decimal(a),
{
}

/// A text that is read as a number has digits only, but for a sign before them.
pub proof fn law_numbers_are_digits(s: Seq<char>, max: nat, i: int)
    requires
        unsigned_value(s, max) is Some || signed_value(s) is Some,
        0 < i < s.len(),
    ensures
        '0' <= s[i] <= '9',
        s.len() > 0,
        '0' <= s[0] <= '9' || s[0] == '+' || s[0] == '-',
        unsigned_value(s, max) is Some ==> s[0] != '-',
        unsigned_value(s, max) is Some ==> unsigned_value(s, max)->0 <= max,
{
    let t = s.skip(1);
    assert(t[i - 1] == s[i]);
}

proof fn lemma_find_char(s: Seq<char>, c: char, i: int)
    requires
        0 <= i,
    ensures
        match find_char_from(s, c, i) {
            Some(k) => i <= k < s.len() && s[k] == c && forall|j: int|
                i <= j < k ==> #[trigger] s[j] != c,
            None => forall|j: int| i <= j < s.len() ==> #[trigger] s[j] != c,
        },
    decreases s.len() - i,
{
    if i < s.len() && s[i] != c {
        lemma_find_char(s, c, i + 1);
    }
}

proof fn lemma_find_text(s: Seq<char>, pat: Seq<char>, i: int)
    requires
        0 <= i,
    ensures
        match find_from(s, pat, i) {
            Some(k) => i <= k && k + pat.len() <= s.len() && s.subrange(k, k + pat.len()) == pat
                && forall|j: int| i <= j < k ==> #[trigger] s.subrange(j, j + pat.len()) != pat,
            None => forall|j: int|
                i <= j && j + pat.len() <= s.len() ==> #[trigger] s.subrange(j, j + pat.len())
                    != pat,
        },
    decreases s.len() + 1 - i,
{
    if i + pat.len() <= s.len() && s.subrange(i, i + pat.len()) != pat {
        lemma_find_text(s, pat, i + 1);
    }
}

/// A text is found where it stands first, and not found if and only if it
/// stands nowhere.
pub proof fn law_first_place_is_found(s: Seq<char>, pat: Seq<char>)
    ensures
        match find_text(s, pat) {
            Some(k) => 0 <= k && k + pat.len() <= s.len() && s.subrange(k, k + pat.len()) == pat
                && forall|j: int| 0 <= j < k ==> #[trigger] s.subrange(j, j + pat.len()) != pat,
            None => forall|j: int|
                0 <= j && j + pat.len() <= s.len() ==> #[trigger] s.subrange(j, j + pat.len())
                    != pat,
        },
        ends_with_text(s, pat) <==> exists|t: Seq<char>| s == #[trigger] (t + pat),
{
    lemma_find_text(s, pat, 0);
    if ends_with_text(s, pat) {
        let t = s.take(s.len() - pat.len());
        assert(s =~= t + pat);
    }
    if exists|t: Seq<char>| s == #[trigger] (t + pat) {
        let t = choose|t: Seq<char>| s == #[trigger] (t + pat);
        assert(s.skip(s.len() - pat.len()) =~= pat);
    }
}

/// A text is cut at the first `c`: the parts with `c` between them are the
/// text, and the first part holds none.
pub proof fn law_cut_at_the_first(s: Seq<char>, c: char)
    ensures
        match split_once_at(s, c) {
            Some((a, b)) => s == a + seq![c] + b && !a.contains(c),
            None => !s.contains(c),
        },
{
    lemma_find_char(s, c, 0);
    match find_char(s, c) {
        Some(k) => {
            let a = s.take(k);
            assert(s =~= a + seq![c] + s.skip(k + 1));
            if a.contains(c) {
                let j = choose|j: int| 0 <= j < a.len() && a[j] == c;
                assert(s[j] == c);
            }
        },
        None => {
            if s.contains(c) {
                let j = choose|j: int| 0 <= j < s.len() && s[j] == c;
                assert(s[j] != c);
            }
        },
    }
}

proof fn lemma_joined_front(first: Seq<char>, rest: Seq<Seq<char>>, sep: Seq<char>)
    requires
        rest.len() > 0,
    ensures
        joined(seq![first] + rest, sep) == first + sep + joined(rest, sep),
    decreases rest.len(),
{
    let all = seq![first] + rest;
    if rest.len() == 1 {
        assert(all.drop_last() =~= seq![first]);
        assert(all.last() == rest[0]);
        assert(joined(seq![first], sep) =~= first);
    } else {
        assert(all.drop_last() =~= seq![first] + rest.drop_last());
        lemma_joined_front(first, rest.drop_last(), sep);
        assert(all.last() == rest.last());
        assert(joined(all, sep) =~= first + sep + joined(rest, sep));
    }
}

/// The pieces of a text hold no `c`, and with `c` between them are the text.
pub proof fn law_pieces_make_the_text(s: Seq<char>, c: char)
    ensures
        split_at_char(s, c).len() > 0,
        joined(split_at_char(s, c), seq![c]) == s,
        forall|i: int| 0 <= i < split_at_char(s, c).len() ==> !(#[trigger] split_at_char(s, c)[i]).contains(c),
    decreases s.len(),
{
    lemma_find_char(s, c, 0);
    let parts = split_at_char(s, c);
    match find_char(s, c) {
        Some(k) => {
            let head = s.take(k);
            let rest = s.skip(k + 1);
            law_pieces_make_the_text(rest, c);
            let later = split_at_char(rest, c);
            lemma_joined_front(head, later, seq![c]);
            assert(s =~= head + seq![c] + rest);
            assert forall|i: int| 0 <= i < parts.len() implies !(#[trigger] parts[i]).contains(
                c,
            ) by {
                if i == 0 {
                    if head.contains(c) {
                        let j = choose|j: int| 0 <= j < head.len() && head[j] == c;
                        assert(s[j] == c);
                    }
                } else {
                    assert(parts[i] == later[i - 1]);
                }
            }
        },
        None => {
            assert(joined(parts, seq![c]) =~= s);
            if s.contains(c) {
                let j = choose|j: int| 0 <= j < s.len() && s[j] == c;
                assert(s[j] != c);
            }
            assert(parts[0] == s);
        },
    }
}

proof fn lemma_without_end(s: Seq<char>, c: char)
    ensures
        without_end(s, c).len() <= s.len(),
        without_end(s, c) == s.take(without_end(s, c).len() as int),
        forall|j: int| without_end(s, c).len() <= j < s.len() ==> #[trigger] s[j] == c,
        without_end(s, c).len() > 0 ==> without_end(s, c).last() != c,
    decreases s.len(),
{
    if s.len() > 0 && s.last() == c {
        lemma_without_end(s.drop_last(), c);
        let t = without_end(s, c);
        assert(s.take(t.len() as int) =~= s.drop_last().take(t.len() as int));
        assert forall|j: int| t.len() <= j < s.len() implies #[trigger] s[j] == c by {
            if j < s.len() - 1 {
                assert(s.drop_last()[j] == s[j]);
            }
        }
    } else {
        assert(s.take(s.len() as int) =~= s);
    }
}

proof fn lemma_without_start(s: Seq<char>, c: char)
    ensures
        without_start(s, c).len() <= s.len(),
        without_start(s, c) == s.skip(s.len() - without_start(s, c).len()),
        forall|j: int| 0 <= j < s.len() - without_start(s, c).len() ==> #[trigger] s[j] == c,
        without_start(s, c).len() > 0 ==> without_start(s, c)[0] != c,
    decreases s.len(),
{
    if s.len() > 0 && s[0] == c {
        let u = s.skip(1);
        lemma_without_start(u, c);
        let t = without_start(s, c);
        assert(s.skip(s.len() - t.len()) =~= u.skip(u.len() - t.len()));
        assert forall|j: int| 0 <= j < s.len() - t.len() implies #[trigger] s[j] == c by {
            if j > 0 {
                assert(u[j - 1] == s[j]);
            }
        }
    } else {
        assert(s.skip(0) =~= s);
    }
}

/// What is taken off an end is every `c` there, and nothing else.
pub proof fn law_only_the_ends_are_taken_off(s: Seq<char>, c: char)
    ensures
        without_end(s, c).len() <= s.len(),
        without_end(s, c) == s.take(without_end(s, c).len() as int),
        forall|j: int| without_end(s, c).len() <= j < s.len() ==> #[trigger] s[j] == c,
        without_end(s, c).len() > 0 ==> without_end(s, c).last() != c,
        without_start(s, c).len() <= s.len(),
        without_start(s, c) == s.skip(s.len() - without_start(s, c).len()),
        forall|j: int| 0 <= j < s.len() - without_start(s, c).len() ==> #[trigger] s[j] == c,
        without_start(s, c).len() > 0 ==> without_start(s, c)[0] != c,
{
    lemma_without_end(s, c);
    lemma_without_start(s, c);
}

proof fn lemma_trimmed_start(s: Seq<char>)
    ensures
        trimmed_start(s).len() <= s.len(),
        trimmed_start(s) == s.skip(s.len() - trimmed_start(s).len()),
        forall|j: int| 0 <= j < s.len() - trimmed_start(s).len() ==> is_white(#[trigger] s[j]),
        trimmed_start(s).len() > 0 ==> !is_white(trimmed_start(s)[0]),
    decreases s.len(),
{
    if s.len() > 0 && is_white(s[0]) {
        let u = s.skip(1);
        lemma_trimmed_start(u);
        let t = trimmed_start(s);
        assert(s.skip(s.len() - t.len()) =~= u.skip(u.len() - t.len()));
        assert forall|j: int| 0 <= j < s.len() - t.len() implies is_white(#[trigger] s[j]) by {
            if j > 0 {
                assert(u[j - 1] == s[j]);
            }
        }
    } else {
        assert(s.skip(0) =~= s);
    }
}

proof fn lemma_trimmed_end(s: Seq<char>)
    ensures
        trimmed_end(s).len() <= s.len(),
        trimmed_end(s) == s.take(trimmed_end(s).len() as int),
        forall|j: int| trimmed_end(s).len() <= j < s.len() ==> is_white(#[trigger] s[j]),
        trimmed_end(s).len() > 0 ==> !is_white(trimmed_end(s).last()),
    decreases s.len(),
{
    if s.len() > 0 && is_white(s.last()) {
        let u = s.drop_last();
        lemma_trimmed_end(u);
        let t = trimmed_end(s);
        assert(s.take(t.len() as int) =~= u.take(t.len() as int));
        assert forall|j: int| t.len() <= j < s.len() implies is_white(#[trigger] s[j]) by {
            if j < s.len() - 1 {
                assert(u[j] == s[j]);
            }
        }
    } else {
        assert(s.take(s.len() as int) =~= s);
    }
}

/// Trimming takes white space off both ends, all of it and nothing else; blanks,
/// tabs and line ends are white space, and no visible ASCII character is.
pub proof fn law_trimming_takes_white_space_off(s: Seq<char>)
    ensures
        exists|i: int|
            0 <= i <= s.len() - trimmed(s).len() && trimmed(s) == #[trigger] s.subrange(
                i,
                i + trimmed(s).len(),
            ) && forall|j: int|
                0 <= j < s.len() && (j < i || j >= i + trimmed(s).len()) ==> is_white(
                    #[trigger] s[j],
                ),
        trimmed(s).len() > 0 ==> !is_white(trimmed(s)[0]) && !is_white(trimmed(s).last()),
        is_white(' '),
        is_white('\t'),
        is_white('\n'),
        is_white('\r'),
        forall|c: char| '!' <= c <= '~' ==> !#[trigger] is_white(c),
{
    lemma_trimmed_start(s);
    let u = trimmed_start(s);
    lemma_trimmed_end(u);
    let t = trimmed(s);
    let i = s.len() - u.len();
    assert(t =~= s.subrange(i, i + t.len()));
    assert forall|j: int|
        0 <= j < s.len() && (j < i || j >= i + t.len()) implies is_white(#[trigger] s[j]) by {
        if j >= i + t.len() {
            assert(u[j - i] == s[j]);
        }
    }
    if t.len() > 0 {
        assert(t[0] == u[0]);
    }
}

/// One more text is joined to others behind a separator.
pub proof fn law_texts_are_joined(parts: Seq<Seq<char>>, sep: Seq<char>, last: Seq<char>)
    ensures
        parts.len() > 0 ==> joined(parts.push(last), sep) == joined(parts, sep) + sep + last,
        joined(seq![last], sep) == last,
        joined(Seq::empty(), sep).len() == 0,
{
    assert(parts.push(last).drop_last() =~= parts);
}

} // verus!
