//! What the operations on text come to, character by character.

use vstd::prelude::*;
use vstd::string::*;

use crate::text::blank;
use crate::text::decimal;
use crate::text::double_colon_at;
use crate::text::has_part;
use crate::text::has_prefix;
use crate::text::joined;
use crate::text::precedes;
use crate::text::root_segment;
use crate::text::texts;
use crate::text::white_space;

verus! {

/// `a` and `b` agree up to `k`, where `a` ends or has the smaller character.
pub open spec fn parts_ways_at(a: Seq<char>, b: Seq<char>, k: int) -> bool {
    &&& 0 <= k <= a.len()
    &&& k < b.len()
    &&& forall|i: int| 0 <= i < k ==> #[trigger] a[i] == b[i]
    &&& k < a.len() ==> (a[k] as int) < (b[k] as int)
}

/// One text precedes another exactly if they agree up to some place at which
/// the first one ends or has the smaller code point.
pub proof fn order_is_settled_by_the_first_difference(a: Seq<char>, b: Seq<char>)
    ensures
        precedes(a, b) <==> exists|k: int| #[trigger] parts_ways_at(a, b, k),
    decreases a.len(),
{
    if b.len() == 0 || a.len() == 0 || a[0] != b[0] {
        if precedes(a, b) {
            assert(parts_ways_at(a, b, 0));
        }
        if exists|k: int| #[trigger] parts_ways_at(a, b, k) {
            let k = choose|k: int| #[trigger] parts_ways_at(a, b, k);
            if k > 0 {
                assert(a[0] == b[0]);
            }
        }
    } else {
        let rest = a.drop_first();
        let other = b.drop_first();
        order_is_settled_by_the_first_difference(rest, other);
        if precedes(a, b) {
            let k = choose|k: int| #[trigger] parts_ways_at(rest, other, k);
            assert forall|i: int| 0 <= i < k + 1 implies #[trigger] a[i] == b[i] by {
                if i > 0 {
                    assert(rest[i - 1] == other[i - 1]);
                }
            }
            assert(parts_ways_at(a, b, k + 1));
        }
        if exists|k: int| #[trigger] parts_ways_at(a, b, k) {
            let k = choose|k: int| #[trigger] parts_ways_at(a, b, k);
            assert forall|i: int| 0 <= i < k - 1 implies #[trigger] rest[i] == other[i] by {
                assert(a[i + 1] == b[i + 1]);
            }
            assert(parts_ways_at(rest, other, k - 1));
        }
    }
}

/// The code points of white space, each on its own.
pub open spec fn white_codes() -> Set<int> {
    set![
        0x09int, 0x0a, 0x0b, 0x0c, 0x0d, 0x20, 0x85, 0xa0, 0x1680, 0x2000, 0x2001, 0x2002, 0x2003,
        0x2004, 0x2005, 0x2006, 0x2007, 0x2008, 0x2009, 0x200a, 0x2028, 0x2029, 0x202f, 0x205f,
        0x3000,
    ]
}

/// A text is blank exactly if every one of its characters has one of the code
/// points of white space; the empty text is.
pub proof fn blank_text_is_all_white(text: Seq<char>)
    ensures
        blank(text) <==> forall|i: int|
            0 <= i < text.len() ==> white_codes().contains(#[trigger] text[i] as int),
        text.len() == 0 ==> blank(text),
{
    assert forall|c: char| #[trigger] white_space(c) == white_codes().contains(c as int) by {}
    if blank(text) {
        assert forall|i: int| 0 <= i < text.len() implies white_codes().contains(
            #[trigger] text[i] as int,
        ) by {
            assert(white_space(text[i]));
        }
    }
    if forall|i: int| 0 <= i < text.len() ==> white_codes().contains(#[trigger] text[i] as int) {
        assert forall|i: int| 0 <= i < text.len() implies white_space(#[trigger] text[i]) by {
            assert(white_codes().contains(text[i] as int));
        }
    }
}

/// A text has a prefix exactly if it is the prefix with something after it.
pub proof fn prefix_and_rest_make_the_text(text: Seq<char>, prefix: Seq<char>)
    ensures
        has_prefix(text, prefix) <==> exists|rest: Seq<char>| text == #[trigger] (prefix + rest),
{
    if has_prefix(text, prefix) {
        assert(text =~= prefix + text.skip(prefix.len() as int));
    }
    if exists|rest: Seq<char>| text == #[trigger] (prefix + rest) {
        assert(text.take(prefix.len() as int) =~= prefix);
    }
}

/// A part occurs in a text exactly if the characters from some place on are the part's.
pub proof fn part_stands_somewhere(text: Seq<char>, part: Seq<char>)
    ensures
        has_part(text, part) <==> exists|at: int|
            0 <= at && at + part.len() <= text.len() && #[trigger] text.subrange(
                at,
                at + part.len(),
            ) == part,
{
    if has_part(text, part) {
        let (before, after) = choose|before: Seq<char>, after: Seq<char>|
            text == #[trigger] (before + part + after);
        let at = before.len() as int;
        assert(text.subrange(at, at + part.len()) =~= part);
    }
    if exists|at: int|
        0 <= at && at + part.len() <= text.len() && #[trigger] text.subrange(at, at + part.len())
            == part {
        let at = choose|at: int|
            0 <= at && at + part.len() <= text.len() && #[trigger] text.subrange(
                at,
                at + part.len(),
            ) == part;
        assert(text =~= text.take(at) + part + text.skip(at + part.len()));
    }
}

/// The texts of strings are as many as the strings, and each is that of its string.
pub proof fn each_string_has_its_text(strings: Seq<String>)
    ensures
        texts(strings).len() == strings.len(),
        forall|i: int| 0 <= i < strings.len() ==> #[trigger] texts(strings)[i] == strings[i]@,
{
}

/// Two colons stand at `i` in `text`.
pub open spec fn colons_at(text: Seq<char>, i: int) -> bool {
    i + 1 < text.len() && text[i] == ':' && text[i + 1] == ':'
}

/// The first segment of a path is followed by two colons or by nothing, no two
/// colons stand before its end, and there is but one such segment.
pub proof fn first_segment_ends_at_the_first_colons(
    path: Seq<char>,
    root: Seq<char>,
    other: Seq<char>,
)
    ensures
        root_segment(path, root) <==> {
            &&& root.len() <= path.len()
            &&& path == root + path.skip(root.len() as int)
            &&& root.len() == path.len() || colons_at(path, root.len() as int)
            &&& forall|i: int| 0 <= i < root.len() ==> !#[trigger] colons_at(path, i)
        },
        root_segment(path, root) && root_segment(path, other) ==> root == other,
{
    if root.len() <= path.len() {
        assert(path =~= path.take(root.len() as int) + path.skip(root.len() as int));
        if path == root + path.skip(root.len() as int) {
            assert(path.take(root.len() as int) =~= root);
        }
        if root_segment(path, root) {
            assert forall|i: int| 0 <= i < root.len() implies !#[trigger] colons_at(path, i) by {
                assert(!double_colon_at(path, i));
            }
        }
        if forall|i: int| 0 <= i < root.len() ==> !#[trigger] colons_at(path, i) {
            assert forall|i: int| 0 <= i < root.len() implies !#[trigger] double_colon_at(
                path,
                i,
            ) by {
                assert(!colons_at(path, i));
            }
        }
    }
    if root_segment(path, root) && root_segment(path, other) {
        if root.len() < other.len() {
            assert(double_colon_at(path, root.len() as int));
        }
        if other.len() < root.len() {
            assert(double_colon_at(path, other.len() as int));
        }
    }
}

/// The number that decimal digits write.
pub open spec fn number_of(digits: Seq<char>) -> int
    decreases digits.len(),
{
    if digits.len() == 0 {
        0
    } else {
        number_of(digits.drop_last()) * 10 + (digits.last() as int - '0' as int)
    }
}

/// The decimal notation of a number is made of digits, reads back as the
/// number, and starts with a zero only where the number is zero.
pub proof fn decimal_reads_back(n: nat)
    ensures
        decimal(n).len() > 0,
        forall|i: int|
            0 <= i < decimal(n).len() ==> '0' as int <= #[trigger] decimal(n)[i] as int <= '9' as int,
        number_of(decimal(n)) == n,
        n > 0 ==> decimal(n)[0] != '0',
        n == 0 ==> decimal(n).len() == 1,
    decreases n,
{
    if n < 10 {
        let digits = decimal(n);
        assert(digits.drop_last() =~= Seq::empty());
        assert(number_of(digits.drop_last()) == 0);
    } else {
        decimal_reads_back(n / 10);
        let digits = decimal(n);
        assert(digits.drop_last() =~= decimal(n / 10));
        assert(digits[0] == decimal(n / 10)[0]);
        assert forall|i: int| 0 <= i < digits.len() implies '0' as int <= #[trigger] digits[i] as int
            <= '9' as int by {
            if i < digits.len() - 1 {
                assert(digits[i] == decimal(n / 10)[i]);
            }
        }
    }
}

/// Where part `i` starts when `gap` characters stand between each two parts.
pub open spec fn place_of(parts: Seq<Seq<char>>, gap: int, i: int) -> int
    decreases i,
{
    if i <= 0 {
        0
    } else {
        place_of(parts, gap, i - 1) + parts[i - 1].len() + gap
    }
}

/// In joined parts each part stands whole and in its turn, the separator
/// stands before every one but the first, and there is nothing else.
pub proof fn joined_parts_stand_in_order(parts: Seq<Seq<char>>, separator: Seq<char>)
    ensures
        parts.len() == 0 ==> joined(parts, separator, parts.len()).len() == 0,
        parts.len() > 0 ==> joined(parts, separator, parts.len()).len() + separator.len()
            == place_of(parts, separator.len() as int, parts.len() as int),
        forall|i: int|
            0 <= i < parts.len() ==> {
                let text = joined(parts, separator, parts.len());
                let from = #[trigger] place_of(parts, separator.len() as int, i);
                &&& text.subrange(from, from + parts[i].len()) == parts[i]
                &&& i > 0 ==> text.subrange(from - separator.len(), from) == separator
            },
{
    if parts.len() > 0 {
        first_parts_stand_in_order(parts, separator, parts.len());
    }
}

proof fn places_ascend(parts: Seq<Seq<char>>, gap: int, i: int, n: int)
    requires
        0 <= gap,
        0 <= i <= n <= parts.len(),
    ensures
        0 <= place_of(parts, gap, i) <= place_of(parts, gap, n),
        i < n ==> place_of(parts, gap, i) + parts[i].len() + gap <= place_of(parts, gap, n),
    decreases n,
{
    if i < n {
        places_ascend(parts, gap, i, n - 1);
    } else if i > 0 {
        places_ascend(parts, gap, i - 1, n - 1);
    }
}

proof fn first_parts_stand_in_order(parts: Seq<Seq<char>>, separator: Seq<char>, n: nat)
    requires
        0 < n <= parts.len(),
    ensures
        joined(parts, separator, n).len() + separator.len() == place_of(
            parts,
            separator.len() as int,
            n as int,
        ),
        forall|i: int|
            0 <= i < n ==> {
                let text = joined(parts, separator, n);
                let from = #[trigger] place_of(parts, separator.len() as int, i);
                &&& text.subrange(from, from + parts[i].len()) == parts[i]
                &&& i > 0 ==> text.subrange(from - separator.len(), from) == separator
            },
    decreases n,
{
    let gap = separator.len() as int;
    let text = joined(parts, separator, n);
    assert(place_of(parts, gap, 0) == 0);
    assert(place_of(parts, gap, n as int) == place_of(parts, gap, n - 1) + parts[n - 1].len() + gap);
    if n == 1 {
        assert(text.subrange(0, parts[0].len() as int) =~= parts[0]);
    } else {
        let m = (n - 1) as nat;
        let front = joined(parts, separator, m);
        first_parts_stand_in_order(parts, separator, m);
        assert(text == front + separator + parts[n - 1]);
        assert forall|i: int| 0 <= i < n implies {
            let from = #[trigger] place_of(parts, gap, i);
            &&& text.subrange(from, from + parts[i].len()) == parts[i]
            &&& i > 0 ==> text.subrange(from - separator.len(), from) == separator
        } by {
            places_ascend(parts, gap, i, m as int);
            let from = place_of(parts, gap, i);
            if i < m {
                assert(text.subrange(from, from + parts[i].len()) =~= front.subrange(
                    from,
                    from + parts[i].len(),
                ));
                if i > 0 {
                    places_ascend(parts, gap, i - 1, i);
                    assert(text.subrange(from - gap, from) =~= front.subrange(from - gap, from));
                }
            } else {
                assert(text.subrange(from, from + parts[i].len()) =~= parts[i]);
                assert(text.subrange(from - gap, from) =~= separator);
            }
        }
    }
}

} // verus!
