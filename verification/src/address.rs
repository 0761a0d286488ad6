//! Textual IP addresses.
//!
//! An address is written either as a dotted quad (`192.0.2.1`) or as up to
//! eight colon-separated hexadecimal groups, where one run of zero groups may be
//! shortened to `::` and the last two groups may be written as a dotted quad.
//! The grammar is stated over the fields that the separators cut the text into.

use vstd::prelude::*;

verus! {

/// A parsed address: the 32 bits of an IPv4 address or the 128 bits of an
/// IPv6 address, most significant group first.
#[derive(Clone, Copy, Debug, PartialEq, Eq, Structural)]
pub enum IpAddress {
    V4(u32),
    V6(u128),
}

/// The fields that `sep` cuts `text` into. A text without `sep` is one field;
/// two adjacent separators enclose an empty field.
pub open spec fn split(text: Seq<char>, sep: char) -> Seq<Seq<char>>
    decreases text.len(),
{
    if text.len() == 0 {
        seq![Seq::empty()]
    } else {
        let before = split(text.drop_last(), sep);
        if text.last() == sep {
            before.push(Seq::empty())
        } else {
            before.drop_last().push(before.last().push(text.last()))
        }
    }
}

pub open spec fn is_decimal_digit(c: char) -> bool {
    '0' <= c && c <= '9'
}

/// The value of a hexadecimal digit of either case, or -1 for any other character.
pub open spec fn hex_digit_value(c: char) -> int {
    if '0' <= c && c <= '9' {
        c as u32 - 48
    } else if 'a' <= c && c <= 'f' {
        c as u32 - 87
    } else if 'A' <= c && c <= 'F' {
        c as u32 - 55
    } else {
        -1
    }
}

/// The number that the digits of `field` spell in base ten.
pub open spec fn decimal_value(field: Seq<char>) -> int
    decreases field.len(),
{
    if field.len() == 0 {
        0
    } else {
        decimal_value(field.drop_last()) * 10 + (field.last() as u32 - 48)
    }
}

/// The number that the digits of `field` spell in base sixteen.
pub open spec fn hex_value(field: Seq<char>) -> int
    decreases field.len(),
{
    if field.len() == 0 {
        0
    } else {
        hex_value(field.drop_last()) * 16 + hex_digit_value(field.last())
    }
}

/// One to three decimal digits without a leading zero, spelling at most 255.
pub open spec fn is_octet(field: Seq<char>) -> bool {
    &&& 1 <= field.len() <= 3
    &&& forall|i: int| 0 <= i < field.len() ==> is_decimal_digit(#[trigger] field[i])
    &&& (field.len() > 1 ==> field[0] != '0')
    &&& decimal_value(field) <= 255
}

/// One to four hexadecimal digits.
pub open spec fn is_group(field: Seq<char>) -> bool {
    &&& 1 <= field.len() <= 4
    &&& forall|i: int| 0 <= i < field.len() ==> hex_digit_value(#[trigger] field[i]) >= 0
}

/// Four octets separated by dots.
pub open spec fn is_dotted_quad(text: Seq<char>) -> bool {
    let octets = split(text, '.');
    &&& octets.len() == 4
    &&& forall|i: int| 0 <= i < 4 ==> is_octet(#[trigger] octets[i])
}

/// The two 16-bit groups that a dotted quad stands for.
pub open spec fn quad_groups(text: Seq<char>) -> Seq<int> {
    let octets = split(text, '.');
    seq![
        decimal_value(octets[0]) * 256 + decimal_value(octets[1]),
        decimal_value(octets[2]) * 256 + decimal_value(octets[3]),
    ]
}

/// The 32-bit value of a dotted quad.
pub open spec fn quad_value(text: Seq<char>) -> int {
    quad_groups(text)[0] * 0x1_0000 + quad_groups(text)[1]
}

/// Every field is a hexadecimal group, except that the last one may be a
/// dotted quad where `quad_allowed`.
pub open spec fn is_group_list(fields: Seq<Seq<char>>, quad_allowed: bool) -> bool {
    forall|i: int|
        0 <= i < fields.len() ==> {
            ||| is_group(#[trigger] fields[i])
            ||| (quad_allowed && i == fields.len() - 1 && is_dotted_quad(fields[i]))
        }
}

/// The 16-bit groups that one field stands for: one for a hexadecimal group,
/// two for a dotted quad.
pub open spec fn field_groups(field: Seq<char>) -> Seq<int> {
    if is_group(field) {
        seq![hex_value(field)]
    } else {
        quad_groups(field)
    }
}

/// The 16-bit groups that a list of fields stands for, in order.
pub open spec fn list_groups(fields: Seq<Seq<char>>) -> Seq<int>
    decreases fields.len(),
{
    if fields.len() == 0 {
        Seq::empty()
    } else {
        list_groups(fields.drop_last()) + field_groups(fields.last())
    }
}

/// The colon-separated fields spell all eight groups, none left out.
pub open spec fn spells_full(fields: Seq<Seq<char>>) -> bool {
    &&& is_group_list(fields, true)
    &&& list_groups(fields).len() == 8
}

/// The colon-separated fields hold one `::`, which shows as the empty fields
/// `lo..=hi`: one empty field between two groups, one more where the `::`
/// opens the text, and one more where it closes it. Only groups stand before
/// it; after it the last field may be a dotted quad. At least one group is
/// left out.
pub open spec fn spells_with_gap(fields: Seq<Seq<char>>, lo: int, hi: int) -> bool {
    &&& 0 <= lo <= hi < fields.len()
    &&& forall|i: int| lo <= i <= hi ==> (#[trigger] fields[i]).len() == 0
    &&& hi - lo == (if lo == 0 { 1int } else { 0int }) + (if hi == fields.len() - 1 { 1int } else { 0int })
    &&& is_group_list(fields.subrange(0, lo), false)
    &&& is_group_list(fields.subrange(hi + 1, fields.len() as int), true)
    &&& list_groups(fields.subrange(0, lo)).len() + list_groups(
        fields.subrange(hi + 1, fields.len() as int),
    ).len() <= 7
}

/// The eight groups of an address written with a `::` at fields `lo..=hi`:
/// the groups before it, zeros for those left out, the groups after it.
pub open spec fn gap_groups(fields: Seq<Seq<char>>, lo: int, hi: int) -> Seq<int> {
    let head = list_groups(fields.subrange(0, lo));
    let tail = list_groups(fields.subrange(hi + 1, fields.len() as int));
    head + zero_groups(8 - head.len() - tail.len()) + tail
}

/// The 128-bit value of eight 16-bit groups, most significant first.
pub open spec fn groups_value(groups: Seq<int>) -> int {
    groups[0] * 0x1_0000_0000_0000_0000_0000_0000_0000 + groups[1]
        * 0x1_0000_0000_0000_0000_0000_0000 + groups[2] * 0x1_0000_0000_0000_0000_0000 + groups[3]
        * 0x1_0000_0000_0000_0000 + groups[4] * 0x1_0000_0000_0000 + groups[5] * 0x1_0000_0000
        + groups[6] * 0x1_0000 + groups[7]
}

/// The colon-separated `fields` spell the 128-bit `value`, in full or with
/// one `::`.
pub open spec fn fields_spell(fields: Seq<Seq<char>>, value: int) -> bool {
    ||| (spells_full(fields) && value == groups_value(list_groups(fields)))
    ||| exists|lo: int, hi: int|
        spells_with_gap(fields, lo, hi) && value == groups_value(gap_groups(fields, lo, hi))
}

/// `text` is a way of writing `address`.
pub open spec fn spells(text: Seq<char>, address: IpAddress) -> bool {
    match address {
        IpAddress::V4(value) => is_dotted_quad(text) && value == quad_value(text),
        IpAddress::V6(value) => fields_spell(split(text, ':'), value as int),
    }
}

/// Sixteen-bit groups as mathematical integers.
pub open spec fn widen(groups: Seq<u16>) -> Seq<int> {
    Seq::new(groups.len(), |i: int| groups[i] as int)
}

/// `count` zero groups.
pub open spec fn zero_groups(count: int) -> Seq<int> {
    Seq::new(count as nat, |i: int| 0int)
}

/// The views of a vector of fields.
pub open spec fn field_views(fields: Seq<Vec<char>>) -> Seq<Seq<char>> {
    Seq::new(fields.len(), |i: int| fields[i]@)
}

/// The characters of `text`, in order.
pub fn text_chars(text: &str) -> (chars: Vec<char>)
    ensures
        chars@ == text@,
{
    let mut chars: Vec<char> = Vec::new();
    for c in it: text.chars()
        invariant
            chars@ == it.seq().take(it.index()),
            it.seq() == text@,
    {
        chars.push(c);
    }
    chars
}

/// Cuts `chars` at every `sep`.
pub fn split_fields(chars: &Vec<char>, sep: char) -> (fields: Vec<Vec<char>>)
    ensures
        field_views(fields@) == split(chars@, sep),
        fields.len() >= 1,
{
    let mut done: Vec<Vec<char>> = Vec::new();
    let mut current: Vec<char> = Vec::new();
    let mut i: usize = 0;
    while i < chars.len()
        invariant
            i <= chars.len(),
            field_views(done@).push(current@) == split(chars@.take(i as int), sep),
        decreases chars.len() - i,
    {
        let c = chars[i];
        let ghost before = split(chars@.take(i as int), sep);
        let ghost closed = field_views(done@);
        proof {
            let prefix = chars@.take(i + 1);
            assert(prefix.drop_last() == chars@.take(i as int));
            assert(prefix.last() == c);
            assert(before.drop_last() == closed);
            assert(before.last() == current@);
        }
        if c == sep {
            done.push(current);
            current = Vec::new();
            assert(field_views(done@) == before);
        } else {
            current.push(c);
            assert(field_views(done@) == closed);
        }
        i += 1;
    }
    assert(chars@.take(i as int) == chars@);
    let ghost closed = field_views(done@);
    done.push(current);
    assert(field_views(done@) == closed.push(current@));
    done
}

/// The value of a decimal digit.
pub fn decimal_digit(c: char) -> (digit: Option<u8>)
    ensures
        digit is Some <==> is_decimal_digit(c),
        digit matches Some(d) ==> d == c as u32 - 48,
{
    if '0' <= c && c <= '9' {
        Some((c as u32 - 48) as u8)
    } else {
        None
    }
}

/// The value of a hexadecimal digit of either case.
pub fn hex_digit(c: char) -> (digit: Option<u8>)
    ensures
        digit is Some <==> hex_digit_value(c) >= 0,
        digit matches Some(d) ==> d == hex_digit_value(c) && d < 16,
{
    if '0' <= c && c <= '9' {
        Some((c as u32 - 48) as u8)
    } else if 'a' <= c && c <= 'f' {
        Some((c as u32 - 87) as u8)
    } else if 'A' <= c && c <= 'F' {
        Some((c as u32 - 55) as u8)
    } else {
        None
    }
}

/// Reads one octet of a dotted quad.
pub fn parse_octet(field: &Vec<char>) -> (octet: Option<u8>)
    ensures
        octet is Some <==> is_octet(field@),
        octet matches Some(v) ==> v == decimal_value(field@),
{
    let n = field.len();
    if n == 0 || n > 3 {
        return None;
    }
    if n > 1 && field[0] == '0' {
        return None;
    }
    let mut value: u32 = 0;
    let mut i: usize = 0;
    while i < n
        invariant
            i <= n <= 3,
            n == field.len(),
            forall|j: int| 0 <= j < i ==> is_decimal_digit(#[trigger] field@[j]),
            value == decimal_value(field@.take(i as int)),
            i == 0 ==> value == 0,
            i == 1 ==> value <= 9,
            i == 2 ==> value <= 99,
            i == 3 ==> value <= 999,
        decreases n - i,
    {
        proof {
            let prefix = field@.take(i + 1);
            assert(prefix.drop_last() == field@.take(i as int));
            assert(prefix.last() == field@[i as int]);
        }
        match decimal_digit(field[i]) {
            Some(d) => {
                value = value * 10 + d as u32;
            },
            None => {
                return None;
            },
        }
        i += 1;
    }
    assert(field@.take(n as int) == field@);
    if value > 255 {
        None
    } else {
        Some(value as u8)
    }
}

/// Reads one hexadecimal group.
pub fn parse_group(field: &Vec<char>) -> (group: Option<u16>)
    ensures
        group is Some <==> is_group(field@),
        group matches Some(v) ==> v == hex_value(field@),
{
    let n = field.len();
    if n == 0 || n > 4 {
        return None;
    }
    let mut value: u32 = 0;
    let mut i: usize = 0;
    while i < n
        invariant
            i <= n <= 4,
            n == field.len(),
            forall|j: int| 0 <= j < i ==> hex_digit_value(#[trigger] field@[j]) >= 0,
            value == hex_value(field@.take(i as int)),
            i == 0 ==> value == 0,
            i == 1 ==> value <= 0xf,
            i == 2 ==> value <= 0xff,
            i == 3 ==> value <= 0xfff,
            i == 4 ==> value <= 0xffff,
        decreases n - i,
    {
        proof {
            let prefix = field@.take(i + 1);
            assert(prefix.drop_last() == field@.take(i as int));
            assert(prefix.last() == field@[i as int]);
        }
        match hex_digit(field[i]) {
            Some(d) => {
                value = value * 16 + d as u32;
            },
            None => {
                return None;
            },
        }
        i += 1;
    }
    assert(field@.take(n as int) == field@);
    Some(value as u16)
}

/// Reads a dotted quad as the two groups it stands for.
pub fn parse_quad(field: &Vec<char>) -> (quad: Option<(u16, u16)>)
    ensures
        quad is Some <==> is_dotted_quad(field@),
        quad matches Some(pair) ==> seq![pair.0 as int, pair.1 as int] == quad_groups(field@),
{
    let octets = split_fields(field, '.');
    if octets.len() != 4 {
        return None;
    }
    proof {
        let views = field_views(octets@);
        assert(views[0] == octets@[0]@);
        assert(views[1] == octets@[1]@);
        assert(views[2] == octets@[2]@);
        assert(views[3] == octets@[3]@);
    }
    let a = match parse_octet(&octets[0]) {
        Some(v) => v,
        None => {
            return None;
        },
    };
    let b = match parse_octet(&octets[1]) {
        Some(v) => v,
        None => {
            return None;
        },
    };
    let c = match parse_octet(&octets[2]) {
        Some(v) => v,
        None => {
            return None;
        },
    };
    let d = match parse_octet(&octets[3]) {
        Some(v) => v,
        None => {
            return None;
        },
    };
    Some((a as u16 * 256 + b as u16, c as u16 * 256 + d as u16))
}

/// Reads the fields `from..to` as groups; the last may be a dotted quad
/// where `quad_allowed`.
pub fn parse_group_list(
    fields: &Vec<Vec<char>>,
    from: usize,
    to: usize,
    quad_allowed: bool,
) -> (groups: Option<Vec<u16>>)
    requires
        from <= to <= fields.len(),
    ensures
        groups is Some <==> is_group_list(
            field_views(fields@).subrange(from as int, to as int),
            quad_allowed,
        ),
        groups matches Some(g) ==> {
            &&& widen(g@) == list_groups(field_views(fields@).subrange(from as int, to as int))
            &&& g.len() <= to - from + 1
        },
{
    let ghost list = field_views(fields@).subrange(from as int, to as int);
    let mut groups: Vec<u16> = Vec::new();
    let mut i: usize = from;
    while i < to
        invariant
            from <= i <= to <= fields.len(),
            list == field_views(fields@).subrange(from as int, to as int),
            forall|j: int| 0 <= j < i - from ==> is_group(#[trigger] list[j]),
            widen(groups@) == list_groups(list.take(i - from)),
            groups.len() == i - from,
        decreases to - i,
    {
        let ghost k = i - from;
        proof {
            assert(list[k] == fields@[i as int]@);
            assert(list.take(k + 1).drop_last() == list.take(k));
            assert(list.take(k + 1).last() == list[k]);
        }
        match parse_group(&fields[i]) {
            Some(v) => {
                let ghost before = widen(groups@);
                groups.push(v);
                assert(widen(groups@) == before + seq![v as int]);
            },
            None => {
                if quad_allowed && i + 1 == to {
                    match parse_quad(&fields[i]) {
                        Some(pair) => {
                            let ghost before = widen(groups@);
                            groups.push(pair.0);
                            groups.push(pair.1);
                            proof {
                                assert(widen(groups@) == before + seq![
                                    pair.0 as int,
                                    pair.1 as int,
                                ]);
                                assert(list.take(k + 1) == list);
                            }
                            return Some(groups);
                        },
                        None => {
                            return None;
                        },
                    }
                } else {
                    return None;
                }
            },
        }
        i += 1;
    }
    assert(list.take(i - from) == list);
    Some(groups)
}

/// The group at place `k` of the eight that `head`, zeros and `tail` make up.
fn group_at(head: &Vec<u16>, tail: &Vec<u16>, k: usize) -> (group: u16)
    requires
        k < 8,
        head.len() + tail.len() <= 8,
    ensures
        group == (widen(head@) + zero_groups(8 - head.len() - tail.len()) + widen(tail@))[k as int],
{
    if k < head.len() {
        head[k]
    } else if k >= 8 - tail.len() {
        tail[k - (8 - tail.len())]
    } else {
        0
    }
}

/// The 128-bit value of the groups `head`, then zeros, then `tail`, eight
/// in all.
pub fn join_groups(head: &Vec<u16>, tail: &Vec<u16>) -> (value: u128)
    requires
        head.len() + tail.len() <= 8,
    ensures
        value == groups_value(
            widen(head@) + zero_groups(8 - head.len() - tail.len()) + widen(tail@),
        ),
{
    let g0 = group_at(head, tail, 0) as u128;
    let g1 = group_at(head, tail, 1) as u128;
    let g2 = group_at(head, tail, 2) as u128;
    let g3 = group_at(head, tail, 3) as u128;
    let g4 = group_at(head, tail, 4) as u128;
    let g5 = group_at(head, tail, 5) as u128;
    let g6 = group_at(head, tail, 6) as u128;
    let g7 = group_at(head, tail, 7) as u128;
    g0 * 0x1_0000_0000_0000_0000_0000_0000_0000 + g1 * 0x1_0000_0000_0000_0000_0000_0000 + g2
        * 0x1_0000_0000_0000_0000_0000 + g3 * 0x1_0000_0000_0000_0000 + g4 * 0x1_0000_0000_0000
        + g5 * 0x1_0000_0000 + g6 * 0x1_0000 + g7
}

/// Reads colon-separated fields as the 128 bits of an IPv6 address.
pub fn parse_groups(fields: &Vec<Vec<char>>) -> (address: Option<u128>)
    requires
        fields.len() >= 1,
    ensures
        forall|value: int|
            fields_spell(field_views(fields@), value) <==> (address matches Some(v) && v
                == value),
{
    let ghost all = field_views(fields@);
    let n = fields.len();
    let mut lo: usize = 0;
    while lo < n && fields[lo].len() != 0
        invariant
            lo <= n,
            n == fields.len(),
            all == field_views(fields@),
            forall|j: int| 0 <= j < lo ==> (#[trigger] all[j]).len() != 0,
        decreases n - lo,
    {
        assert(all[lo as int] == fields@[lo as int]@);
        lo += 1;
    }
    if lo == n {
        proof {
            assert forall|a: int, b: int| !spells_with_gap(all, a, b) by {
                if spells_with_gap(all, a, b) {
                    assert(all[a].len() == 0);
                }
            }
            assert(all.subrange(0, n as int) == all);
        }
        match parse_group_list(fields, 0, n, true) {
            Some(g) => {
                if g.len() == 8 {
                    let none: Vec<u16> = Vec::new();
                    let value = join_groups(&g, &none);
                    assert(widen(g@) + zero_groups(0) + widen(none@) == list_groups(all));
                    return Some(value);
                } else {
                    return None;
                }
            },
            None => {
                return None;
            },
        }
    }
    assert(all[lo as int] == fields@[lo as int]@);
    let mut hi: usize = n - 1;
    while fields[hi].len() != 0
        invariant
            lo <= hi < n,
            n == fields.len(),
            all == field_views(fields@),
            all[lo as int].len() == 0,
            forall|j: int| hi < j < n ==> (#[trigger] all[j]).len() != 0,
        decreases hi,
    {
        assert(all[hi as int] == fields@[hi as int]@);
        hi -= 1;
    }
    proof {
        assert(all[hi as int] == fields@[hi as int]@);
        lemma_empty_field_is_no_group(all[lo as int]);
        assert(!spells_full(all));
        assert forall|a: int, b: int| spells_with_gap(all, a, b) implies a == lo && b == hi by {
            assert(all[a].len() == 0);
            assert(all[b].len() == 0);
            if a > lo {
                assert(all.subrange(0, a)[lo as int] == all[lo as int]);
            }
            if b < hi {
                assert(all.subrange(b + 1, n as int)[hi - b - 1] == all[hi as int]);
                lemma_empty_field_is_no_group(all[hi as int]);
            }
        }
    }
    let opens: usize = if lo == 0 {
        1
    } else {
        0
    };
    let closes: usize = if hi == n - 1 {
        1
    } else {
        0
    };
    if hi - lo != opens + closes {
        return None;
    }
    if hi - lo == 2 {
        assert(all[lo + 1] == fields@[lo + 1]@);
        if fields[lo + 1].len() != 0 {
            return None;
        }
    }
    let head = match parse_group_list(fields, 0, lo, false) {
        Some(g) => g,
        None => {
            return None;
        },
    };
    let tail = match parse_group_list(fields, hi + 1, n, true) {
        Some(g) => g,
        None => {
            return None;
        },
    };
    if head.len() > 7 || tail.len() > 7 - head.len() {
        return None;
    }
    let value = join_groups(&head, &tail);
    assert(spells_with_gap(all, lo as int, hi as int));
    Some(value)
}

/// An empty field is neither a group nor a dotted quad.
pub proof fn lemma_empty_field_is_no_group(field: Seq<char>)
    requires
        field.len() == 0,
    ensures
        !is_group(field),
        !is_dotted_quad(field),
{
    assert(split(field, '.').len() == 1);
}

/// Cutting a text always leaves at least one field.
pub proof fn lemma_split_is_not_empty(text: Seq<char>, sep: char)
    ensures
        split(text, sep).len() >= 1,
    decreases text.len(),
{
    if text.len() > 0 {
        lemma_split_is_not_empty(text.drop_last(), sep);
    }
}

/// A text that holds no separator is its own single field.
pub proof fn lemma_split_without_separator(text: Seq<char>, sep: char)
    requires
        forall|i: int| 0 <= i < text.len() ==> text[i] != sep,
    ensures
        split(text, sep) == seq![text],
    decreases text.len(),
{
    if text.len() > 0 {
        lemma_split_without_separator(text.drop_last(), sep);
        let before = seq![text.drop_last()];
        assert(before.drop_last() == Seq::<Seq<char>>::empty());
        assert(before.last().push(text.last()) == text);
        assert(Seq::<Seq<char>>::empty().push(text) == seq![text]);
    } else {
        assert(text == Seq::<char>::empty());
    }
}

/// Every character that is not a separator stands in one of the fields:
/// the result is such a field and the place in it.
pub proof fn lemma_field_holds_char(text: Seq<char>, sep: char, i: int) -> (place: (int, int))
    requires
        0 <= i < text.len(),
        text[i] != sep,
    ensures
        0 <= place.0 < split(text, sep).len(),
        0 <= place.1 < split(text, sep)[place.0].len(),
        split(text, sep)[place.0][place.1] == text[i],
    decreases text.len(),
{
    let before = split(text.drop_last(), sep);
    lemma_split_is_not_empty(text.drop_last(), sep);
    if i == text.len() - 1 {
        (before.len() - 1, before.last().len() as int)
    } else {
        lemma_field_holds_char(text.drop_last(), sep, i)
    }
}

/// A dotted quad holds no colon.
pub proof fn lemma_quad_holds_no_colon(text: Seq<char>)
    requires
        is_dotted_quad(text),
    ensures
        forall|i: int| 0 <= i < text.len() ==> text[i] != ':',
{
    assert forall|i: int| 0 <= i < text.len() implies text[i] != ':' by {
        if text[i] != '.' {
            let place = lemma_field_holds_char(text, '.', i);
            let octet = split(text, '.')[place.0];
            assert(is_octet(octet));
            assert(is_decimal_digit(octet[place.1]));
        }
    }
}

/// The colon-separated fields of a dotted quad spell no IPv6 address.
pub proof fn lemma_quad_spells_no_groups(text: Seq<char>)
    requires
        is_dotted_quad(text),
    ensures
        forall|value: int| !fields_spell(split(text, ':'), value),
{
    lemma_quad_holds_no_colon(text);
    lemma_split_without_separator(text, ':');
    let fields = seq![text];
    lemma_empty_field_is_no_group(Seq::empty());
    assert(fields.drop_last() == Seq::<Seq<char>>::empty());
    assert(list_groups(fields.drop_last()).len() == 0);
    assert(field_groups(fields.last()).len() <= 2);
    assert(list_groups(fields).len() <= 2);
    assert(!spells_full(fields));
    assert forall|lo: int, hi: int| !spells_with_gap(fields, lo, hi) by {
        if spells_with_gap(fields, lo, hi) {
            assert(fields[lo].len() == 0);
        }
    }
}

/// Fields that spell all eight groups hold no `::`.
pub proof fn lemma_full_excludes_gap(fields: Seq<Seq<char>>, lo: int, hi: int)
    requires
        spells_full(fields),
    ensures
        !spells_with_gap(fields, lo, hi),
{
    if spells_with_gap(fields, lo, hi) {
        assert(fields[lo].len() == 0);
        lemma_empty_field_is_no_group(fields[lo]);
    }
}

/// The `::` stands at one place only.
pub proof fn lemma_gap_is_unique(fields: Seq<Seq<char>>, lo: int, hi: int, lo2: int, hi2: int)
    requires
        spells_with_gap(fields, lo, hi),
        spells_with_gap(fields, lo2, hi2),
    ensures
        lo == lo2,
        hi == hi2,
{
    let n = fields.len() as int;
    assert(fields[lo].len() == 0);
    assert(fields[lo2].len() == 0);
    assert(fields[hi].len() == 0);
    assert(fields[hi2].len() == 0);
    if lo < lo2 {
        assert(fields.subrange(0, lo2)[lo] == fields[lo]);
    }
    if lo2 < lo {
        assert(fields.subrange(0, lo)[lo2] == fields[lo2]);
    }
    if hi < hi2 {
        assert(fields.subrange(hi + 1, n)[hi2 - hi - 1] == fields[hi2]);
        lemma_empty_field_is_no_group(fields[hi2]);
    }
    if hi2 < hi {
        assert(fields.subrange(hi2 + 1, n)[hi - hi2 - 1] == fields[hi]);
        lemma_empty_field_is_no_group(fields[hi]);
    }
}

/// A text spells at most one address.
pub proof fn law_spelling_is_unique(text: Seq<char>, a: IpAddress, b: IpAddress)
    requires
        spells(text, a),
        spells(text, b),
    ensures
        a == b,
{
    if is_dotted_quad(text) {
        lemma_quad_spells_no_groups(text);
    } else {
        let fields = split(text, ':');
        let va = a->V6_0 as int;
        let vb = b->V6_0 as int;
        if spells_full(fields) {
            assert forall|lo: int, hi: int| !spells_with_gap(fields, lo, hi) by {
                lemma_full_excludes_gap(fields, lo, hi);
            }
        } else {
            let (lo, hi) = choose|lo: int, hi: int|
                spells_with_gap(fields, lo, hi) && va == groups_value(gap_groups(fields, lo, hi));
            let (lo2, hi2) = choose|lo: int, hi: int|
                spells_with_gap(fields, lo, hi) && vb == groups_value(gap_groups(fields, lo, hi));
            lemma_gap_is_unique(fields, lo, hi, lo2, hi2);
        }
    }
}

/// Parses an IPv4 or IPv6 address. The result is the address that `text`
/// spells, and `None` where it spells none.
pub fn parse_address(text: &str) -> (address: Option<IpAddress>)
    ensures
        forall|a: IpAddress| spells(text@, a) <==> address == Some(a),
{
    let chars = text_chars(text);
    match parse_quad(&chars) {
        Some(pair) => {
            proof {
                lemma_quad_spells_no_groups(text@);
            }
            Some(IpAddress::V4(pair.0 as u32 * 0x1_0000 + pair.1 as u32))
        },
        None => {
            let fields = split_fields(&chars, ':');
            match parse_groups(&fields) {
                Some(value) => Some(IpAddress::V6(value)),
                None => None,
            }
        },
    }
}

} // verus!
