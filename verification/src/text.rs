//! Comparing and joining text.
use vstd::prelude::*;

verus! {

/// Whether two strings hold the same characters.
pub(crate) fn same_text(a: &str, b: &str) -> (r: bool)
    ensures
        r == (a@ == b@),
{
    let len: usize = a.unicode_len();
    if b.unicode_len() != len {
        return false;
    }
    let mut i: usize = 0;
    while i < len
        invariant
            i <= len,
            a@.len() == len,
            b@.len() == len,
            forall|j: int| 0 <= j < i ==> a@[j] == b@[j],
        decreases len - i,
    {
        if a.get_char(i) != b.get_char(i) {
            return false;
        }
        i += 1;
    }
    assert(a@ =~= b@);
    true
}

/// The ten digits.
pub const DIGITS: [&'static str; 10] = ["0", "1", "2", "3", "4", "5", "6", "7", "8", "9"];

/// A number in decimal, without leading zeros.
pub open spec fn decimal(n: nat) -> Seq<char>
    decreases n,
{
    if n < 10 {
        DIGITS[n as int]@
    } else {
        decimal(n / 10) + DIGITS[(n % 10) as int]@
    }
}

/// A number in decimal.
pub fn decimal_of(n: u64) -> (r: String)
    ensures
        r@ == decimal(n as nat),
    decreases n,
{
    let last: usize = (n % 10) as usize;
    if n < 10 {
        String::from_str(DIGITS[last])
    } else {
        let mut text: String = decimal_of(n / 10);
        text.append(DIGITS[last]);
        text
    }
}

/// Two texts, one after the other.
pub fn joined(a: &str, b: &str) -> (r: String)
    ensures
        r@ == a@ + b@,
{
    let mut text: String = String::from_str(a);
    text.append(b);
    text
}

/// Whether a code point is white space, as Unicode lists it.
pub open spec fn white_point(n: u32) -> bool {
    ||| 0x0009 <= n <= 0x000D
    ||| n == 0x0020
    ||| n == 0x0085
    ||| n == 0x00A0
    ||| n == 0x1680
    ||| 0x2000 <= n <= 0x200A
    ||| 0x2028 <= n <= 0x2029
    ||| n == 0x202F
    ||| n == 0x205F
    ||| n == 0x3000
}

/// Whether a character is white space.
pub open spec fn white(c: char) -> bool {
    white_point(c as u32)
}

fn is_white(c: char) -> (r: bool)
    ensures
        r == white(c),
{
    let n: u32 = c as u32;
    (0x0009 <= n && n <= 0x000D) || n == 0x0020 || n == 0x0085 || n == 0x00A0 || n == 0x1680 || (0x2000
        <= n && n <= 0x200A) || n == 0x2028 || n == 0x2029 || n == 0x202F || n == 0x205F || n == 0x3000
}

/// A text without the white space that it starts with.
pub open spec fn trimmed_front(text: Seq<char>) -> Seq<char>
    decreases text.len(),
{
    if text.len() > 0 && white(text[0]) {
        trimmed_front(text.drop_first())
    } else {
        text
    }
}

/// A text without the white space that it ends with.
pub open spec fn trimmed_back(text: Seq<char>) -> Seq<char>
    decreases text.len(),
{
    if text.len() > 0 && white(text.last()) {
        trimmed_back(text.drop_last())
    } else {
        text
    }
}

/// A text without the white space around it.
pub open spec fn trimmed(text: Seq<char>) -> Seq<char> {
    trimmed_back(trimmed_front(text))
}

/// The parts of a text between the places where a character occurs in it.
pub open spec fn parts(text: Seq<char>, separator: char) -> Seq<Seq<char>>
    decreases text.len(),
{
    if text.len() == 0 {
        seq![Seq::empty()]
    } else {
        let before = parts(text.drop_last(), separator);
        if text.last() == separator {
            before.push(Seq::empty())
        } else {
            before.drop_last().push(before.last().push(text.last()))
        }
    }
}

fn trim<'a>(text: &'a str) -> (r: &'a str)
    ensures
        r@ == trimmed(text@),
{
    let end: usize = text.unicode_len();
    let mut from: usize = 0;
    assert(text@.subrange(0, end as int) =~= text@);
    while from < end && is_white(text.get_char(from))
        invariant
            from <= end,
            end == text@.len(),
            trimmed_front(text@) == trimmed_front(text@.subrange(from as int, end as int)),
        decreases end - from,
    {
        assert(text@.subrange(from as int, end as int).drop_first() =~= text@.subrange(
            from + 1,
            end as int,
        ));
        from += 1;
    }
    let ghost front = text@.subrange(from as int, end as int);
    assert(trimmed_front(text@) == front);
    let mut to: usize = end;
    while to > from && is_white(text.get_char(to - 1))
        invariant
            from <= to <= end,
            end == text@.len(),
            front == text@.subrange(from as int, end as int),
            trimmed_back(front) == trimmed_back(text@.subrange(from as int, to as int)),
        decreases to,
    {
        assert(text@.subrange(from as int, to as int).drop_last() =~= text@.subrange(
            from as int,
            to - 1,
        ));
        to -= 1;
    }
    text.substring_char(from, to)
}

/// The parts of a list between its commas, without the white space around each.
#[must_use]
pub fn pieces<'a>(list: &'a str) -> (r: Vec<&'a str>)
    ensures
        r@.len() == parts(list@, ',').len(),
        forall|k: int| 0 <= k < r@.len() ==> (#[trigger] r@[k])@ == trimmed(parts(list@, ',')[k]),
{
    let end: usize = list.unicode_len();
    let mut found: Vec<&'a str> = Vec::new();
    let mut start: usize = 0;
    let mut at: usize = 0;
    assert(list@.take(0) =~= Seq::empty());
    assert(list@.subrange(0, 0) =~= Seq::empty());
    while at < end
        invariant
            start <= at <= end,
            end == list@.len(),
            parts(list@.take(at as int), ',').len() == found@.len() + 1,
            parts(list@.take(at as int), ',').last() == list@.subrange(start as int, at as int),
            forall|k: int|
                0 <= k < found@.len() ==> (#[trigger] found@[k])@ == trimmed(
                    parts(list@.take(at as int), ',')[k],
                ),
        decreases end - at,
    {
        proof {
            assert(list@.take(at + 1).drop_last() =~= list@.take(at as int));
            assert(list@.take(at + 1).last() == list@[at as int]);
            assert(list@.subrange(start as int, at + 1) =~= list@.subrange(
                start as int,
                at as int,
            ).push(list@[at as int]));
        }
        if list.get_char(at) == ',' {
            found.push(trim(list.substring_char(start, at)));
            start = at + 1;
            assert(list@.subrange(start as int, at + 1) =~= Seq::empty());
        }
        at += 1;
    }
    assert(list@.take(end as int) =~= list@);
    found.push(trim(list.substring_char(start, end)));
    found
}

/// The number that some digits stand for, the most significant first.
pub open spec fn number(digits: Seq<char>) -> int
    decreases digits.len(),
{
    if digits.len() == 0 {
        0
    } else {
        10 * number(digits.drop_last()) + (digits.last() as u32 - '0' as u32)
    }
}

/// A number in decimal reads back, is made of digits alone, and starts with a
/// zero only if it is zero.
pub proof fn law_decimals_read_back(n: nat)
    ensures
        number(decimal(n)) == n,
        decimal(n).len() > 0,
        forall|i: int| 0 <= i < decimal(n).len() ==> '0' <= (#[trigger] decimal(n)[i]) <= '9',
        n > 0 ==> decimal(n)[0] != '0',
    decreases n,
{
    reveal_strlit("0");
    reveal_strlit("1");
    reveal_strlit("2");
    reveal_strlit("3");
    reveal_strlit("4");
    reveal_strlit("5");
    reveal_strlit("6");
    reveal_strlit("7");
    reveal_strlit("8");
    reveal_strlit("9");
    let last = DIGITS[(n % 10) as int]@;
    assert(last.len() == 1 && last[0] as u32 - '0' as u32 == n % 10 && '0' <= last[0] <= '9');
    let text = decimal(n);
    if n >= 10 {
        law_decimals_read_back(n / 10);
        assert(text.drop_last() =~= decimal(n / 10));
        assert(text.last() == last[0]);
        assert(text[0] == decimal(n / 10)[0]);
        assert forall|i: int| 0 <= i < text.len() implies '0' <= (#[trigger] text[i]) <= '9' by {
            if i < text.len() - 1 {
                assert(text[i] == decimal(n / 10)[i]);
            }
        }
    } else {
        assert(text == last);
        assert(text.drop_last() =~= Seq::empty());
        assert(number(text.drop_last()) == 0);
    }
}

/// Parts put together again, with the separator between them.
pub open spec fn rejoined(parts: Seq<Seq<char>>, separator: char) -> Seq<char>
    decreases parts.len(),
{
    if parts.len() == 0 {
        Seq::empty()
    } else if parts.len() == 1 {
        parts[0]
    } else {
        rejoined(parts.drop_last(), separator).push(separator) + parts.last()
    }
}

/// A text is its parts with the separator between them, and no part holds the
/// separator.
pub proof fn law_parts_make_the_text(text: Seq<char>, separator: char)
    ensures
        parts(text, separator).len() > 0,
        rejoined(parts(text, separator), separator) == text,
        forall|k: int|
            0 <= k < parts(text, separator).len() ==> !(#[trigger] parts(text, separator)[k]).contains(
                separator,
            ),
    decreases text.len(),
{
    let all = parts(text, separator);
    if text.len() > 0 {
        let shorter = text.drop_last();
        law_parts_make_the_text(shorter, separator);
        let before = parts(shorter, separator);
        if text.last() == separator {
            assert(all.drop_last() =~= before);
            assert(rejoined(all, separator) =~= text);
        } else {
            assert(all.drop_last() =~= before.drop_last());
            let longer = before.last().push(text.last());
            assert(all.last() == longer);
            assert forall|k: int| 0 <= k < all.len() implies !(#[trigger] all[k]).contains(separator) by {
                if k < all.len() - 1 {
                    assert(all[k] == before[k]);
                } else {
                    assert(!before[before.len() - 1].contains(separator));
                    if longer.contains(separator) {
                        let i = choose|i: int| 0 <= i < longer.len() && longer[i] == separator;
                        assert(before.last()[i] == separator);
                    }
                }
            }
            assert(rejoined(all, separator) =~= rejoined(before, separator).push(text.last()));
            assert(text =~= shorter.push(text.last()));
        }
    } else {
        assert(text =~= Seq::empty());
    }
}

/// Trimming takes away white space from both ends, all of it, and nothing else.
pub proof fn law_trimming(text: Seq<char>) -> (cut: (int, int))
    ensures
        0 <= cut.0 <= cut.1 <= text.len(),
        trimmed(text) == text.subrange(cut.0, cut.1),
        forall|i: int| 0 <= i < cut.0 ==> white(#[trigger] text[i]),
        forall|i: int| cut.1 <= i < text.len() ==> white(#[trigger] text[i]),
        trimmed(text).len() > 0 ==> !white(trimmed(text)[0]) && !white(trimmed(text).last()),
{
    let from = lemma_trimmed_front(text);
    let front = trimmed_front(text);
    let to = lemma_trimmed_back(front);
    assert(front.subrange(0, to) =~= text.subrange(from, from + to));
    assert forall|i: int| from + to <= i < text.len() implies white(#[trigger] text[i]) by {
        assert(front[i - from] == text[i]);
    }
    (from, from + to)
}

proof fn lemma_trimmed_front(text: Seq<char>) -> (from: int)
    ensures
        0 <= from <= text.len(),
        trimmed_front(text) == text.subrange(from, text.len() as int),
        forall|i: int| 0 <= i < from ==> white(#[trigger] text[i]),
        trimmed_front(text).len() > 0 ==> !white(trimmed_front(text)[0]),
    decreases text.len(),
{
    if text.len() > 0 && white(text[0]) {
        let rest = text.drop_first();
        let from = lemma_trimmed_front(rest);
        assert(rest.subrange(from, rest.len() as int) =~= text.subrange(from + 1, text.len() as int));
        assert forall|i: int| 0 <= i < from + 1 implies white(#[trigger] text[i]) by {
            if i > 0 {
                assert(rest[i - 1] == text[i]);
            }
        }
        from + 1
    } else {
        assert(text.subrange(0, text.len() as int) =~= text);
        0
    }
}

proof fn lemma_trimmed_back(text: Seq<char>) -> (to: int)
    ensures
        0 <= to <= text.len(),
        trimmed_back(text) == text.subrange(0, to),
        forall|i: int| to <= i < text.len() ==> white(#[trigger] text[i]),
        trimmed_back(text).len() > 0 ==> !white(trimmed_back(text).last()),
    decreases text.len(),
{
    if text.len() > 0 && white(text.last()) {
        let rest = text.drop_last();
        let to = lemma_trimmed_back(rest);
        assert(rest.subrange(0, to) =~= text.subrange(0, to));
        assert forall|i: int| to <= i < text.len() implies white(#[trigger] text[i]) by {
            if i < rest.len() {
                assert(rest[i] == text[i]);
            }
        }
        to
    } else {
        assert(text.subrange(0, text.len() as int) =~= text);
        text.len() as int
    }
}

} // verus!
