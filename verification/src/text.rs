//! Small text operations with their meaning spelled out over characters.
use vstd::prelude::*;

verus! {

/// `c` has the Unicode property White_Space.
pub open spec fn is_white_space(c: char) -> bool {
    ||| '\u{9}' <= c <= '\u{d}'
    ||| c == '\u{20}'
    ||| c == '\u{85}'
    ||| c == '\u{a0}'
    ||| c == '\u{1680}'
    ||| '\u{2000}' <= c <= '\u{200a}'
    ||| c == '\u{2028}'
    ||| c == '\u{2029}'
    ||| c == '\u{202f}'
    ||| c == '\u{205f}'
    ||| c == '\u{3000}'
}

/// `s` without its leading white space.
pub open spec fn without_leading_space(s: Seq<char>) -> Seq<char>
    decreases s.len(),
{
    if s.len() > 0 && is_white_space(s[0]) {
        without_leading_space(s.subrange(1, s.len() as int))
    } else {
        s
    }
}

/// `s` without its trailing white space.
pub open spec fn without_trailing_space(s: Seq<char>) -> Seq<char>
    decreases s.len(),
{
    if s.len() > 0 && is_white_space(s.last()) {
        without_trailing_space(s.drop_last())
    } else {
        s
    }
}

/// `s` without white space at either end.
pub open spec fn trimmed(s: Seq<char>) -> Seq<char> {
    without_trailing_space(without_leading_space(s))
}

/// The pieces of `s` between the separators; one piece more than separators.
pub open spec fn pieces(s: Seq<char>, separator: char) -> Seq<Seq<char>>
    decreases s.len(),
{
    if s.len() == 0 {
        seq![Seq::<char>::empty()]
    } else {
        let before = pieces(s.drop_last(), separator);
        if s.last() == separator {
            before.push(Seq::<char>::empty())
        } else {
            before.drop_last().push(before.last().push(s.last()))
        }
    }
}

/// `s` without the `c` that it begins with, if it does.
pub open spec fn without_prefix(s: Seq<char>, c: char) -> Seq<char> {
    if s.len() > 0 && s[0] == c {
        s.subrange(1, s.len() as int)
    } else {
        s
    }
}

/// Whether `c` has the Unicode property White_Space.
pub fn white_space(c: char) -> (r: bool)
    ensures
        r == is_white_space(c),
{
    ('\u{9}' <= c && c <= '\u{d}') || c == '\u{20}' || c == '\u{85}' || c == '\u{a0}' || c
        == '\u{1680}' || ('\u{2000}' <= c && c <= '\u{200a}') || c == '\u{2028}' || c
        == '\u{2029}' || c == '\u{202f}' || c == '\u{205f}' || c == '\u{3000}'
}

/// The characters of `s`.
pub fn characters(s: &str) -> (r: Vec<char>)
    ensures
        r@ == s@,
{
    let mut r: Vec<char> = Vec::new();
    for c in it: s.chars()
        invariant
            r@ == it.seq().take(it.index()),
            it.seq() == s@,
    {
        r.push(c);
    }
    r
}

/// Whether two texts hold the same characters.
pub fn same_text(a: &str, b: &str) -> (r: bool)
    ensures
        r == (a@ == b@),
{
    let left = characters(a);
    let right = characters(b);
    if left.len() != right.len() {
        return false;
    }
    let mut i: usize = 0;
    while i < left.len()
        invariant
            i <= left.len(),
            left.len() == right.len(),
            left@ == a@,
            right@ == b@,
            left@.take(i as int) =~= right@.take(i as int),
        decreases left.len() - i,
    {
        if left[i] != right[i] {
            return false;
        }
        i = i + 1;
    }
    assert(left@ =~= left@.take(i as int));
    assert(right@ =~= right@.take(i as int));
    true
}

/// `s` without white space at either end.
pub fn trim<'a>(s: &'a str) -> (r: &'a str)
    ensures
        r@ == trimmed(s@),
{
    let chars = characters(s);
    let mut start: usize = 0;
    assert(s@.subrange(0, s@.len() as int) =~= s@);
    while start < chars.len() && white_space(chars[start])
        invariant
            start <= chars.len(),
            chars@ == s@,
            without_leading_space(s@) == without_leading_space(
                s@.subrange(start as int, s@.len() as int),
            ),
        decreases chars.len() - start,
    {
        proof {
            let rest = s@.subrange(start as int, s@.len() as int);
            assert(rest.subrange(1, rest.len() as int) =~= s@.subrange(
                start + 1,
                s@.len() as int,
            ));
        }
        start = start + 1;
    }
    let ghost led = s@.subrange(start as int, s@.len() as int);
    assert(without_leading_space(s@) == led);
    let mut end: usize = chars.len();
    while start < end && white_space(chars[end - 1])
        invariant
            start <= end <= chars.len(),
            chars@ == s@,
            led == s@.subrange(start as int, s@.len() as int),
            without_trailing_space(led) == without_trailing_space(
                s@.subrange(start as int, end as int),
            ),
        decreases end,
    {
        proof {
            let rest = s@.subrange(start as int, end as int);
            assert(rest.drop_last() =~= s@.subrange(start as int, end - 1));
        }
        end = end - 1;
    }
    s.substring_char(start, end)
}

/// `s` without the `c` that it begins with, if it does.
pub fn strip_prefix<'a>(s: &'a str, c: char) -> (r: &'a str)
    ensures
        r@ == without_prefix(s@, c),
{
    let chars = characters(s);
    if chars.len() > 0 && chars[0] == c {
        s.substring_char(1, chars.len())
    } else {
        s
    }
}

/// A character is white space: by number, the controls from tab to carriage return, the
/// blanks, and the line and paragraph separators.
pub proof fn law_white_space_by_number(c: char)
    ensures
        is_white_space(c) <==> {
            let n = c as u32;
            ||| 9 <= n <= 13
            ||| n == 32
            ||| n == 0x85
            ||| n == 0xa0
            ||| n == 0x1680
            ||| 0x2000 <= n <= 0x200a
            ||| n == 0x2028
            ||| n == 0x2029
            ||| n == 0x202f
            ||| n == 0x205f
            ||| n == 0x3000
        },
{
}

/// Every character of `s` is white space.
pub open spec fn is_blank_text(s: Seq<char>) -> bool {
    forall|k: int| 0 <= k < s.len() ==> is_white_space(#[trigger] s[k])
}

proof fn lemma_leading_space(s: Seq<char>) -> (lead: Seq<char>)
    ensures
        is_blank_text(lead),
        s == lead + without_leading_space(s),
        without_leading_space(s).len() > 0 ==> !is_white_space(without_leading_space(s)[0]),
    decreases s.len(),
{
    if s.len() > 0 && is_white_space(s[0]) {
        let rest = s.subrange(1, s.len() as int);
        let lead = lemma_leading_space(rest);
        let all = seq![s[0]] + lead;
        assert(s =~= seq![s[0]] + rest);
        assert(s =~= all + without_leading_space(s));
        all
    } else {
        assert(s =~= Seq::<char>::empty() + s);
        Seq::empty()
    }
}

proof fn lemma_trailing_space(s: Seq<char>) -> (trail: Seq<char>)
    ensures
        is_blank_text(trail),
        s == without_trailing_space(s) + trail,
        without_trailing_space(s).len() > 0 ==> !is_white_space(without_trailing_space(s).last()),
    decreases s.len(),
{
    if s.len() > 0 && is_white_space(s.last()) {
        let trail = lemma_trailing_space(s.drop_last());
        let all = trail.push(s.last());
        assert(s =~= s.drop_last().push(s.last()));
        assert(s =~= without_trailing_space(s) + all);
        all
    } else {
        assert(s =~= s + Seq::<char>::empty());
        Seq::empty()
    }
}

/// A text is what is trimmed of it between two runs of white space, and what is left
/// neither begins nor ends with any.
pub proof fn law_trimming_takes_the_white_space_at_both_ends(s: Seq<char>) -> (r: (
    Seq<char>,
    Seq<char>,
))
    ensures
        is_blank_text(r.0),
        is_blank_text(r.1),
        s == r.0 + trimmed(s) + r.1,
        trimmed(s).len() > 0 ==> !is_white_space(trimmed(s)[0]) && !is_white_space(
            trimmed(s).last(),
        ),
{
    let lead = lemma_leading_space(s);
    let led = without_leading_space(s);
    let trail = lemma_trailing_space(led);
    assert(s =~= lead + trimmed(s) + trail);
    if trimmed(s).len() > 0 {
        assert(led[0] == trimmed(s)[0]);
    }
    (lead, trail)
}

/// The pieces with the separator between each two of them.
pub open spec fn joined(parts: Seq<Seq<char>>, separator: char) -> Seq<char>
    decreases parts.len(),
{
    if parts.len() == 0 {
        Seq::empty()
    } else if parts.len() == 1 {
        parts[0]
    } else {
        joined(parts.drop_last(), separator).push(separator) + parts.last()
    }
}

/// The pieces of a text hold no separator, and joined by it they are the text again.
pub proof fn law_pieces_join_to_the_text(s: Seq<char>, separator: char)
    ensures
        pieces(s, separator).len() > 0,
        joined(pieces(s, separator), separator) == s,
        forall|k: int|
            0 <= k < pieces(s, separator).len() ==> !(#[trigger] pieces(s, separator)[k]).contains(
                separator,
            ),
    decreases s.len(),
{
    let parts = pieces(s, separator);
    if s.len() == 0 {
        assert(joined(parts, separator) =~= s);
    } else {
        let before = pieces(s.drop_last(), separator);
        law_pieces_join_to_the_text(s.drop_last(), separator);
        assert(s =~= s.drop_last().push(s.last()));
        if s.last() == separator {
            assert(parts.drop_last() =~= before);
            assert(joined(parts, separator) =~= s);
        } else {
            let last = before.last().push(s.last());
            assert(parts.drop_last() =~= before.drop_last());
            assert(before[before.len() - 1] == before.last());
            assert(!before.last().contains(separator));
            assert forall|k: int| 0 <= k < parts.len() implies !(#[trigger] parts[k]).contains(
                separator,
            ) by {
                if k < before.len() - 1 {
                    assert(parts[k] == before[k]);
                } else if parts[k].contains(separator) {
                    let i = choose|i: int| 0 <= i < last.len() && last[i] == separator;
                    assert(before.last()[i] == separator);
                }
            }
            if before.len() == 1 {
                assert(joined(parts, separator) =~= last);
                assert(joined(parts, separator) =~= s);
            } else {
                assert(joined(parts, separator) =~= s);
            }
        }
    }
}

/// A prefix is taken away once, and a text that does not begin with it stays.
pub proof fn law_prefixes_are_taken_once(s: Seq<char>, c: char)
    ensures
        without_prefix(seq![c] + s, c) == s,
        s.len() > 0 && s[0] != c ==> without_prefix(s, c) == s,
        without_prefix(Seq::empty(), c) == Seq::<char>::empty(),
{
    assert((seq![c] + s).subrange(1, s.len() as int + 1) =~= s);
}

/// Texts without the separator that are joined by it are the pieces of what they make.
pub proof fn law_joined_texts_are_the_pieces(parts: Seq<Seq<char>>, separator: char)
    requires
        parts.len() > 0,
        forall|k: int| 0 <= k < parts.len() ==> !(#[trigger] parts[k]).contains(separator),
    ensures
        pieces(joined(parts, separator), separator) == parts,
    decreases parts.len(),
{
    assert(parts[parts.len() - 1] == parts.last());
    if parts.len() == 1 {
        lemma_pieces_of_one_more(Seq::empty(), parts[0], separator);
        assert(Seq::<char>::empty() + parts[0] =~= parts[0]);
        assert(pieces(parts[0], separator) =~= parts);
    } else {
        let rest = parts.drop_last();
        law_joined_texts_are_the_pieces(rest, separator);
        let before = joined(rest, separator).push(separator);
        assert(before.drop_last() =~= joined(rest, separator));
        lemma_pieces_of_one_more(before, parts.last(), separator);
        assert(pieces(joined(parts, separator), separator) =~= parts);
    }
}

proof fn lemma_pieces_of_one_more(s: Seq<char>, t: Seq<char>, separator: char)
    requires
        !t.contains(separator),
        s.len() == 0 || s.last() == separator,
    ensures
        s.len() == 0 ==> pieces(s + t, separator) == seq![t],
        s.len() > 0 ==> pieces(s + t, separator) == pieces(s.drop_last(), separator).push(t),
    decreases t.len(),
{
    if t.len() == 0 {
        assert(s + t =~= s);
        assert(t =~= Seq::empty());
    } else {
        let rest = t.drop_last();
        assert forall|k: int| 0 <= k < rest.len() implies rest[k] != separator by {
            assert(t.contains(t[k]));
        }
        assert(t.contains(t[t.len() - 1]));
        lemma_pieces_of_one_more(s, rest, separator);
        assert((s + t).drop_last() =~= s + rest);
        assert(rest.push(t.last()) =~= t);
        assert(pieces(s + t, separator) =~= pieces(s + rest, separator).drop_last().push(t));
        if s.len() == 0 {
            assert(pieces(s + t, separator) =~= seq![t]);
        } else {
            assert(pieces(s + t, separator) =~= pieces(s.drop_last(), separator).push(t));
        }
    }
}

} // verus!
