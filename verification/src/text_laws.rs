//! What holds of texts: how numbers are written and read, how texts are cut, trimmed and joined.

use vstd::prelude::*;
use vstd::string::*;

use crate::text;

verus! {

/// Law: a number below ten is written as its digit, and a greater one as the number without its last
/// digit, followed by that digit.
pub proof fn law_dec_appends_digits(n: nat, d: nat)
    requires
        d < 10,
    ensures
        text::dec(d).len() == 1,
        text::dec(d)[0] as int == '0' as int + d,
        n > 0 ==> text::dec(n * 10 + d) == text::dec(n) + text::dec(d),
{
    if n > 0 {
        let m = n * 10 + d;
        assert(m / 10 == n && m % 10 == d);
        assert(text::dec(m) =~= text::dec(n) + text::dec(d));
    }
}

proof fn lemma_digits_push(s: Seq<char>, c: char)
    ensures
        text::digits_value(s.push(c)) == text::digits_value(s) * 10 + (c as int - '0' as int) as nat,
{
    assert(s.push(c).drop_last() =~= s);
}

/// Law: a written number is made of digits, does not start with a zero unless it is zero, and is read
/// as itself, with or without a plus sign, where it is not too large.
pub proof fn law_dec_is_read_back(n: nat, max: nat)
    ensures
        text::digits_value(text::dec(n)) == n,
        text::dec(n).len() > 0,
        forall|i: int|
            0 <= i < text::dec(n).len() ==> '0' <= (#[trigger] text::dec(n)[i])
                && text::dec(n)[i] <= '9',
        n > 0 ==> text::dec(n)[0] != '0',
        text::parsed(text::dec(n), max) == (if n <= max {
            Some(n)
        } else {
            None
        }),
        text::parsed(seq!['+'] + text::dec(n), max) == (if n <= max {
            Some(n)
        } else {
            None
        }),
    decreases n,
{
    let s = text::dec(n);
    if n < 10 {
        assert(s.drop_last() =~= Seq::<char>::empty());
        assert(s.last() as int == '0' as int + n);
        assert(text::digits_value(s.drop_last()) == 0);
    } else {
        law_dec_is_read_back(n / 10, max);
        lemma_digits_push(text::dec(n / 10), text::digit_char((n % 10) as int));
        assert forall|i: int| 0 <= i < s.len() implies '0' <= (#[trigger] s[i]) && s[i] <= '9' by {
            if i < s.len() - 1 {
                assert(s[i] == text::dec(n / 10)[i]);
            }
        }
        assert(s[0] == text::dec(n / 10)[0]);
    }
    assert forall|i: int| 0 <= i < s.len() implies text::is_digit(#[trigger] s[i]) by {}
    let p = seq!['+'] + s;
    assert(p.drop_first() =~= s);
    assert(p[0] == '+');
}

/// Law: numbers that differ are written differently.
pub proof fn law_dec_tells_apart(a: nat, b: nat)
    requires
        text::dec(a) == text::dec(b),
    ensures
        a == b,
{
    law_dec_is_read_back(a, 0);
    law_dec_is_read_back(b, 0);
}

/// Law: what is read as a number is a row of digits, behind a plus sign or not, and each digit counts
/// ten times what it would one place further on.
pub proof fn law_read_number_is_written(s: Seq<char>, c: char, max: nat)
    requires
        '0' <= c && c <= '9',
    ensures
        text::parsed(s, max) is Some ==> {
            let d = if s[0] == '+' {
                s.drop_first()
            } else {
                s
            };
            &&& s.len() > 0 && d.len() > 0
            &&& forall|i: int| 0 <= i < d.len() ==> '0' <= #[trigger] d[i] && d[i] <= '9'
            &&& text::parsed(s, max)->0 <= max
            &&& text::parsed(s, max)->0 * 10 + (c as int - '0' as int) <= max ==> text::parsed(
                s.push(c),
                max,
            ) == Some((text::parsed(s, max)->0 * 10 + (c as int - '0' as int)) as nat)
        },
        text::parsed(Seq::empty(), max) is None,
        text::parsed(seq![c], max) == (if c as int - '0' as int <= max {
            Some((c as int - '0' as int) as nat)
        } else {
            None
        }),
{
    let one = seq![c];
    assert(one.drop_last() =~= Seq::<char>::empty());
    assert(text::digits_value(one.drop_last()) == 0);
    assert(text::digits_value(one) == (c as int - '0' as int) as nat);
    assert(text::is_digit(one[0]));
    if text::parsed(s, max) is Some {
        let d = if s[0] == '+' {
            s.drop_first()
        } else {
            s
        };
        lemma_digits_push(d, c);
        assert forall|i: int| 0 <= i < d.len() implies '0' <= #[trigger] d[i] && d[i] <= '9' by {
            assert(text::is_digit(d[i]));
        }
        assert forall|i: int| 0 <= i < d.push(c).len() implies text::is_digit(
            #[trigger] d.push(c)[i],
        ) by {
            if i < d.len() {
                assert(text::is_digit(d[i]));
            }
        }
        assert(s.push(c)[0] == s[0]);
        if s[0] == '+' {
            assert(s.push(c).drop_first() =~= d.push(c));
        }
    }
}

/// Law: the last of some hexadecimal digits stands for what a division by sixteen leaves, and those
/// before it for the quotient; the digits are `0` to `9` and `a` to `f`.
pub proof fn law_hex_appends_digits(n: nat, d: nat, width: nat)
    requires
        d < 16,
    ensures
        text::hex(n, width).len() == width,
        text::hex(n * 16 + d, width + 1) == text::hex(n, width) + text::hex(d, 1),
        text::hex(d, 1)[0] as int == (if d < 10 {
            '0' as int + d
        } else {
            'a' as int + d - 10
        }),
    decreases width,
{
    let m = n * 16 + d;
    assert(m / 16 == n && m % 16 == d);
    assert(text::hex(d / 16, 0) =~= Seq::<char>::empty());
    assert(text::hex(m, width + 1) =~= text::hex(n, width) + text::hex(d, 1));
    if width > 0 {
        law_hex_appends_digits(n / 16, d, (width - 1) as nat);
    }
}

/// Whether all characters of a text are white space.
pub open spec fn all_space(s: Seq<char>) -> bool {
    forall|i: int| 0 <= i < s.len() ==> text::is_space(#[trigger] s[i])
}

/// Law: blanks, tabulators and line breaks are white space; letters, digits and the other signs of
/// ASCII are not, and neither are the letters of other scripts up to the first of the wide blanks.
pub proof fn law_what_is_space(c: char)
    ensures
        c == ' ' || c == '\t' || c == '\n' || c == '\r' ==> text::is_space(c),
        '!' <= c && c <= '~' ==> !text::is_space(c),
        0xA1 <= c as u32 && (c as u32) < 0x1680 ==> !text::is_space(c),
        0x3001 <= c as u32 ==> !text::is_space(c),
{
}

proof fn lemma_trim_front(s: Seq<char>)
    ensures
        ({
            let t = text::trim_front(s);
            let k = s.len() - t.len();
            &&& t.len() <= s.len()
            &&& t == s.skip(k)
            &&& all_space(s.take(k))
            &&& t.len() > 0 ==> !text::is_space(t[0])
        }),
    decreases s.len(),
{
    if s.len() > 0 && text::is_space(s[0]) {
        let r = s.drop_first();
        lemma_trim_front(r);
        let t = text::trim_front(s);
        let k = s.len() - t.len();
        assert(t =~= s.skip(k));
        assert forall|i: int| 0 <= i < s.take(k).len() implies text::is_space(
            #[trigger] s.take(k)[i],
        ) by {
            if i > 0 {
                assert(r.take(k - 1)[i - 1] == s[i]);
            }
        }
    } else {
        assert(s.skip(0) =~= s);
    }
}

proof fn lemma_trim_back(s: Seq<char>)
    ensures
        ({
            let t = text::trim_back(s);
            &&& t.len() <= s.len()
            &&& t == s.take(t.len() as int)
            &&& all_space(s.skip(t.len() as int))
            &&& t.len() > 0 ==> !text::is_space(t.last())
        }),
    decreases s.len(),
{
    if s.len() > 0 && text::is_space(s.last()) {
        let r = s.drop_last();
        lemma_trim_back(r);
        let t = text::trim_back(s);
        assert(t =~= s.take(t.len() as int));
        assert forall|i: int| 0 <= i < s.skip(t.len() as int).len() implies text::is_space(
            #[trigger] s.skip(t.len() as int)[i],
        ) by {
            if i < r.len() - t.len() {
                assert(r.skip(t.len() as int)[i] == s[i + t.len()]);
            }
        }
    } else {
        assert(s.take(s.len() as int) =~= s);
    }
}

/// Law: a text is what trimming leaves of it, between white space, and what is left neither starts
/// nor ends with white space.
pub proof fn law_trimmed_is_the_core(s: Seq<char>)
    ensures
        exists|a: Seq<char>, b: Seq<char>| #[trigger]
            (a + text::trimmed(s) + b) == s && all_space(a) && all_space(b),
        text::trimmed(s).len() > 0 ==> !text::is_space(text::trimmed(s)[0])
            && !text::is_space(text::trimmed(s).last()),
{
    let f = text::trim_front(s);
    let t = text::trimmed(s);
    lemma_trim_front(s);
    lemma_trim_back(f);
    let a = s.take(s.len() - f.len());
    let b = f.skip(t.len() as int);
    assert(a + t + b =~= s);
}

/// Law: white space around a text that neither starts nor ends with it is all that trimming takes.
pub proof fn law_trimming_takes_space_only(a: Seq<char>, core: Seq<char>, b: Seq<char>)
    requires
        all_space(a),
        all_space(b),
        core.len() > 0 ==> !text::is_space(core[0]) && !text::is_space(core.last()),
    ensures
        text::trimmed(a + core + b) == core,
    decreases a.len() + b.len(),
{
    let s = a + core + b;
    if a.len() > 0 {
        assert(s[0] == a[0]);
        assert(s.drop_first() =~= a.drop_first() + core + b);
        assert forall|i: int| 0 <= i < a.drop_first().len() implies text::is_space(
            #[trigger] a.drop_first()[i],
        ) by {
            assert(a.drop_first()[i] == a[i + 1]);
        }
        law_trimming_takes_space_only(a.drop_first(), core, b);
    } else if core.len() == 0 {
        assert(s =~= b);
        if b.len() > 0 {
            assert(s.drop_first() =~= b.drop_first());
            assert forall|i: int| 0 <= i < b.drop_first().len() implies text::is_space(
                #[trigger] b.drop_first()[i],
            ) by {
                assert(b.drop_first()[i] == b[i + 1]);
            }
            law_trimming_takes_space_only(a, core, b.drop_first());
            assert(a + core + b.drop_first() =~= b.drop_first());
        } else {
            assert(s =~= core);
        }
    } else {
        assert(s[0] == core[0]);
        assert(text::trim_front(s) == s);
        lemma_trim_back_all(core, b);
        assert(s =~= core + b);
    }
}

proof fn lemma_trim_back_all(core: Seq<char>, b: Seq<char>)
    requires
        all_space(b),
        core.len() > 0,
        !text::is_space(core.last()),
    ensures
        text::trim_back(core + b) == core,
    decreases b.len(),
{
    let s = core + b;
    if b.len() > 0 {
        assert(s.last() == b.last());
        assert(text::is_space(b[b.len() - 1]));
        assert(s.drop_last() =~= core + b.drop_last());
        assert forall|i: int| 0 <= i < b.drop_last().len() implies text::is_space(
            #[trigger] b.drop_last()[i],
        ) by {
            assert(b.drop_last()[i] == b[i]);
        }
        lemma_trim_back_all(core, b.drop_last());
    } else {
        assert(s =~= core);
        assert(s.last() == core.last());
    }
}

/// Law: a text without a separator is one field; with one more separator and a text behind it that
/// holds none, there is one more field, which is that text.
pub proof fn law_fields_are_what_stands_between(s: Seq<char>, sep: char, last: Seq<char>)
    requires
        !last.contains(sep),
    ensures
        text::fields(last, sep) == seq![last],
        text::fields(s.push(sep) + last, sep) == text::fields(s, sep).push(last),
    decreases last.len(),
{
    let all = s.push(sep) + last;
    if last.len() == 0 {
        assert(last =~= Seq::<char>::empty());
        assert(all =~= s.push(sep));
        assert(all.drop_last() =~= s);
    } else {
        let front = last.drop_last();
        assert(!front.contains(sep)) by {
            if front.contains(sep) {
                let i = choose|i: int| 0 <= i < front.len() && front[i] == sep;
                assert(last[i] == sep);
            }
        }
        assert(last[last.len() - 1] != sep);
        law_fields_are_what_stands_between(s, sep, front);
        assert(all.drop_last() =~= s.push(sep) + front);
        assert(all.last() == last.last());
        assert(front.push(last.last()) =~= last);
        assert(text::fields(last, sep) =~= seq![last]);
        assert(text::fields(all, sep) =~= text::fields(s, sep).push(last));
    }
}

/// Law: a text ends with another, or starts with it, where something stands before or behind it.
pub proof fn law_ends_of_texts(s: Seq<char>, t: Seq<char>, p: Seq<char>)
    ensures
        text::has_suffix(t + p, p),
        text::has_prefix(p + t, p),
        text::has_suffix(s, p) ==> s == s.take(s.len() - p.len()) + p,
        text::has_prefix(s, p) ==> s == p + s.skip(p.len() as int),
        text::has_suffix(s, p) || text::has_prefix(s, p) ==> s.len() >= p.len(),
{
    assert((t + p).skip((t + p).len() - p.len()) =~= p);
    assert((p + t).take(p.len() as int) =~= p);
    if text::has_suffix(s, p) {
        assert(s =~= s.take(s.len() - p.len()) + s.skip(s.len() - p.len()));
    }
    if text::has_prefix(s, p) {
        assert(s =~= s.take(p.len() as int) + s.skip(p.len() as int));
    }
}

/// Law: the first place of a pattern cuts a text into what stands before it, the pattern and the
/// rest, and before it the pattern stands nowhere.
pub proof fn law_first_place_cuts(s: Seq<char>, p: Seq<char>, i: int, j: int)
    requires
        text::first_at(s, p, i),
        0 <= j,
        j + p.len() <= s.len(),
        s.subrange(j, j + p.len()) == p,
    ensures
        0 <= i <= j,
        s == s.take(i) + p + s.skip(i + p.len()),
{
    assert(text::stands_at(s, p, j));
    assert(s =~= s.take(i) + s.subrange(i, i + p.len()) + s.skip(i + p.len()));
}

/// Law: a pattern that stands nowhere is replaced nowhere; otherwise what stands before its first
/// place stays, the pattern gives way to its replacement, and so on behind it.
pub proof fn law_replaced_from_the_left(s: Seq<char>, from: Seq<char>, to: Seq<char>, i: int)
    requires
        from.len() > 0,
    ensures
        (forall|k: int| !#[trigger] text::stands_at(s, from, k)) ==> text::replaced(s, from, to) == s,
        text::first_at(s, from, i) ==> text::replaced(s, from, to) == s.take(i) + to
            + text::replaced(s.skip(i + from.len()), from, to),
    decreases s.len(),
{
    if s.len() > 0 {
        let r = s.drop_first();
        assert forall|k: int| 0 <= k implies #[trigger] text::stands_at(r, from, k)
            == text::stands_at(s, from, k + 1) by {
            if 0 <= k && k + from.len() <= r.len() {
                assert(r.subrange(k, k + from.len()) =~= s.subrange(k + 1, k + 1 + from.len()));
            }
        }
        if forall|k: int| !#[trigger] text::stands_at(s, from, k) {
            assert(!text::stands_at(s, from, 0));
            assert forall|k: int| !#[trigger] text::stands_at(r, from, k) by {
                if 0 <= k {
                    assert(!text::stands_at(s, from, k + 1));
                }
            }
            law_replaced_from_the_left(r, from, to, 0);
            assert(seq![s[0]] + r =~= s);
        }
        if text::first_at(s, from, i) {
            if i == 0 {
                assert(s.take(0) + to =~= to);
                assert(s.skip(i + from.len()) =~= s.skip(from.len() as int));
            } else {
                assert(!text::stands_at(s, from, 0));
                assert(text::stands_at(r, from, i - 1));
                assert forall|j: int| 0 <= j < i - 1 implies !#[trigger] text::stands_at(
                    r,
                    from,
                    j,
                ) by {
                    assert(!text::stands_at(s, from, j + 1));
                }
                law_replaced_from_the_left(r, from, to, i - 1);
                assert(seq![s[0]] + r.take(i - 1) =~= s.take(i));
                assert(r.skip(i - 1 + from.len()) =~= s.skip(i + from.len()));
                assert(seq![s[0]] + (r.take(i - 1) + to + text::replaced(
                    r.skip(i - 1 + from.len()),
                    from,
                    to,
                )) =~= s.take(i) + to + text::replaced(s.skip(i + from.len()), from, to));
            }
        }
    }
}

/// Law: a list of one text is that text; one more text stands behind the list and the separator.
pub proof fn law_listed_appends(list: Seq<Seq<char>>, one: Seq<char>, sep: Seq<char>)
    ensures
        text::listed(Seq::empty(), sep) == Seq::<char>::empty(),
        text::listed(seq![one], sep) == one,
        list.len() > 0 ==> text::listed(list.push(one), sep) == text::listed(list, sep) + sep + one,
{
    assert(list.push(one).drop_last() =~= list);
}

/// Law: a shape is written between brackets, its sizes in decimal with a comma and a blank between
/// them.
pub proof fn law_shape_is_written(dims: Seq<usize>, one: usize)
    ensures
        text::bracketed(Seq::empty()) == "["@ + "]"@,
        text::bracketed(seq![one]) == "["@ + text::dec(one as nat) + "]"@,
        dims.len() > 0 ==> text::bracketed(dims.push(one)) == text::bracketed(dims).drop_last()
            + ", "@ + text::dec(one as nat) + "]"@,
{
    reveal_strlit("]");
    assert("["@ + Seq::<char>::empty() + "]"@ =~= "["@ + "]"@);
    assert(dims.push(one).drop_last() =~= dims);
    assert(text::bracketed(dims).drop_last() =~= "["@ + text::dec_list(dims));
    if dims.len() > 0 {
        assert(text::dec_list(dims.push(one)) == text::dec_list(dims) + ", "@ + text::dec(
            one as nat,
        ));
        assert(text::bracketed(dims.push(one)) =~= text::bracketed(dims).drop_last() + ", "@
            + text::dec(one as nat) + "]"@);
    }
}

} // verus!
