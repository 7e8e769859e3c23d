//! Characters, words and numbers as text.
use vstd::prelude::*;
use vstd::string::StringExecFns;
use vstd::utf8::encode_utf8;

verus! {

/// `String::push` appends one character at the end.
pub assume_specification[ String::push ](s: &mut String, c: char)
    ensures
        final(s)@ == old(s)@.push(c),
;

/// A control character: C0, DEL or C1.
pub open spec fn is_control(c: char) -> bool {
    (c as u32) < 0x20 || 0x7f <= (c as u32) <= 0x9f
}

/// The number of bytes of a text in UTF-8.
pub open spec fn utf8_len(text: Seq<char>) -> nat {
    encode_utf8(text).len()
}

/// The contents of a list of strings.
pub open spec fn texts(list: Seq<String>) -> Seq<Seq<char>> {
    Seq::new(list.len(), |i: int| list[i]@)
}

/// The content of an optional string.
pub open spec fn text_option(value: Option<String>) -> Option<Seq<char>> {
    match value {
        Some(text) => Some(text@),
        None => None,
    }
}

/// `parts` one after another with `separator` between neighbours.
pub open spec fn join(parts: Seq<Seq<char>>, separator: Seq<char>) -> Seq<char>
    decreases parts.len(),
{
    if parts.len() == 0 {
        Seq::empty()
    } else if parts.len() == 1 {
        parts[0]
    } else {
        join(parts.drop_last(), separator) + separator + parts.last()
    }
}

/// The pieces of `text` between the occurrences of `separator`: always one more than those.
pub open spec fn pieces(text: Seq<char>, separator: char) -> Seq<Seq<char>>
    decreases text.len(),
{
    if text.len() == 0 {
        seq![Seq::empty()]
    } else {
        let before = pieces(text.drop_last(), separator);
        if text.last() == separator {
            before.push(Seq::empty())
        } else {
            before.drop_last().push(before.last().push(text.last()))
        }
    }
}

/// The decimal digit of a number below ten.
pub open spec fn digit(value: nat) -> char {
    ('0' as u32 + value) as char
}

/// A number in decimal notation, without leading zeros.
pub open spec fn decimal(value: nat) -> Seq<char>
    decreases value,
{
    if value < 10 {
        seq![digit(value)]
    } else {
        decimal(value / 10).push(digit(value % 10))
    }
}

/// The lowercase hexadecimal digit of a number below sixteen.
pub open spec fn hex_digit(value: nat) -> char {
    if value < 10 {
        digit(value)
    } else {
        ('a' as u32 + (value - 10)) as char
    }
}

/// A byte as two lowercase hexadecimal digits.
pub open spec fn hex_byte(byte: u8) -> Seq<char> {
    seq![hex_digit((byte / 16) as nat), hex_digit((byte % 16) as nat)]
}

/// A number in lowercase hexadecimal notation, without leading zeros.
pub open spec fn hex(value: nat) -> Seq<char>
    decreases value,
{
    if value < 16 {
        seq![hex_digit(value)]
    } else {
        hex(value / 16).push(hex_digit(value % 16))
    }
}

/// `text` followed by spaces up to `width` characters.
pub open spec fn pad_right(text: Seq<char>, width: nat) -> Seq<char> {
    if text.len() >= width {
        text
    } else {
        text + Seq::new((width - text.len()) as nat, |i: int| ' ')
    }
}

/// Whether `a` comes before `b` in the order of their characters.
pub open spec fn before(a: Seq<char>, b: Seq<char>) -> bool
    decreases a.len(),
{
    if b.len() == 0 {
        false
    } else if a.len() == 0 {
        true
    } else if a[0] != b[0] {
        a[0] < b[0]
    } else {
        before(a.drop_first(), b.drop_first())
    }
}

/// Every text splits into at least one piece.
pub proof fn lemma_pieces_nonempty(text: Seq<char>, separator: char)
    ensures
        pieces(text, separator).len() >= 1,
    decreases text.len(),
{
    if text.len() > 0 {
        lemma_pieces_nonempty(text.drop_last(), separator);
    }
}

/// Text without a separator stays in one piece, with what was last before it.
pub proof fn lemma_pieces_extend(a: Seq<char>, b: Seq<char>, separator: char)
    requires
        !b.contains(separator),
    ensures
        pieces(a + b, separator) == pieces(a, separator).drop_last().push(
            pieces(a, separator).last() + b,
        ),
    decreases b.len(),
{
    let whole = pieces(a, separator);
    lemma_pieces_nonempty(a, separator);
    if b.len() == 0 {
        assert(a + b =~= a);
        assert(whole.last() + b =~= whole.last());
        assert(whole.drop_last().push(whole.last()) =~= whole);
    } else {
        let front = b.drop_last();
        assert forall|i: int| 0 <= i < front.len() implies front[i] != separator by {
            assert(b.contains(b[i]));
        }
        lemma_pieces_extend(a, front, separator);
        assert((a + b).drop_last() =~= a + front);
        assert((a + b).last() == b.last());
        assert(b.contains(b[b.len() - 1]));
        let before = pieces(a + front, separator);
        assert(before.drop_last() =~= whole.drop_last());
        assert(before.last().push(b.last()) =~= whole.last() + b);
    }
}

/// Numbers are written in hexadecimal digits.
pub proof fn lemma_hex_digits(value: nat)
    ensures
        hex(value).len() > 0,
        value >= 16 ==> hex(value).len() > 1,
        forall|i: int|
            0 <= i < hex(value).len() ==> '0' <= #[trigger] hex(value)[i] <= '9' || 'a'
                <= hex(value)[i] <= 'f',
    decreases value,
{
    if value >= 16 {
        lemma_hex_digits(value / 16);
    }
}

/// Different numbers are written differently.
pub proof fn lemma_hex_is_injective(a: nat, b: nat)
    requires
        hex(a) == hex(b),
    ensures
        a == b,
    decreases a,
{
    lemma_hex_digits(a);
    lemma_hex_digits(b);
    if a >= 16 {
        assert(hex(a).drop_last() =~= hex(a / 16));
        assert(hex(b).drop_last() =~= hex(b / 16));
        assert(hex(a).last() == hex_digit(a % 16));
        assert(hex(b).last() == hex_digit(b % 16));
        lemma_hex_is_injective(a / 16, b / 16);
    } else {
        assert(hex(a)[0] == hex_digit(a) && hex(b)[0] == hex_digit(b));
    }
}

/// The UTF-8 length of a concatenation is the sum of the lengths.
pub proof fn lemma_utf8_concat(a: Seq<char>, b: Seq<char>)
    ensures
        utf8_len(a + b) == utf8_len(a) + utf8_len(b),
    decreases a.len(),
{
    if a.len() == 0 {
        assert(a + b =~= b);
    } else {
        assert((a + b).drop_first() =~= a.drop_first() + b);
        lemma_utf8_concat(a.drop_first(), b);
    }
}

/// Of two different texts, one comes before the other.
pub proof fn lemma_before_total(a: Seq<char>, b: Seq<char>)
    ensures
        a == b || before(a, b) || before(b, a),
    decreases a.len(),
{
    if a.len() > 0 && b.len() > 0 {
        if a[0] == b[0] {
            lemma_before_total(a.drop_first(), b.drop_first());
            assert(a =~= seq![a[0]] + a.drop_first());
            assert(b =~= seq![b[0]] + b.drop_first());
        }
    } else if a.len() == 0 && b.len() == 0 {
        assert(a =~= b);
    }
}

/// No text comes before itself, and two texts do not come before each other.
pub proof fn lemma_before_irreflexive(a: Seq<char>, b: Seq<char>)
    ensures
        !before(a, a),
        !(before(a, b) && before(b, a)),
    decreases a.len(),
{
    if a.len() > 0 {
        lemma_before_irreflexive(a.drop_first(), b.drop_first());
    }
}

/// The order of texts is transitive.
pub proof fn lemma_before_transitive(a: Seq<char>, b: Seq<char>, c: Seq<char>)
    requires
        before(a, b),
        before(b, c),
    ensures
        before(a, c),
    decreases a.len(),
{
    if a.len() > 0 && a[0] == b[0] && b[0] == c[0] {
        lemma_before_transitive(a.drop_first(), b.drop_first(), c.drop_first());
    }
}

/// The characters of a text, in order.
pub(crate) fn chars(value: &str) -> (result: Vec<char>)
    ensures
        result@ == value@,
{
    let mut result: Vec<char> = Vec::new();
    for c in it: value.chars()
        invariant
            result@ == it.seq().take(it.index()),
            it.seq() == value@,
    {
        result.push(c);
    }
    assert(result@ == value@);
    result
}

/// The string of a sequence of characters.
pub(crate) fn text(chars: &[char]) -> (result: String)
    ensures
        result@ == chars@,
{
    let mut result = String::new();
    for i in 0..chars.len()
        invariant
            result@ == chars@.take(i as int),
    {
        result.push(chars[i]);
        assert(chars@.take(i + 1) == chars@.take(i as int).push(chars@[i as int]));
    }
    assert(result@ == chars@);
    result
}

/// Whether two texts hold the same characters.
pub(crate) fn same(a: &str, b: &str) -> (result: bool)
    ensures
        result == (a@ == b@),
{
    a.to_owned() == b.to_owned()
}

/// The number of bytes of a text in UTF-8.
pub(crate) fn byte_len(value: &str) -> (result: usize)
    ensures
        result == utf8_len(value@),
{
    value.as_bytes().len()
}

/// Whether a text holds a character.
pub(crate) fn contains(value: &str, wanted: char) -> (result: bool)
    ensures
        result == value@.contains(wanted),
{
    let all = chars(value);
    for i in 0..all.len()
        invariant
            all@ == value@,
            forall|j: int| 0 <= j < i ==> all@[j] != wanted,
    {
        if all[i] == wanted {
            assert(value@[i as int] == wanted);
            return true;
        }
    }
    false
}

/// Joins the strings of a list with a separator.
pub(crate) fn join_texts(parts: &Vec<String>, separator: &str) -> (result: String)
    ensures
        result@ == join(texts(parts@), separator@),
{
    let mut result = String::new();
    for i in 0..parts.len()
        invariant
            result@ == join(texts(parts@.take(i as int)), separator@),
    {
        if i > 0 {
            result.append(separator);
        }
        result.append(parts[i].as_str());
        proof {
            let next = texts(parts@.take(i + 1));
            assert(next.drop_last() =~= texts(parts@.take(i as int)));
            assert(next.last() == parts@[i as int]@);
            if i == 0 {
                assert(Seq::<char>::empty() + next[0] =~= next[0]);
            }
        }
    }
    assert(parts@.take(parts@.len() as int) =~= parts@);
    result
}

/// Splits a text at every occurrence of a separator.
pub(crate) fn split(value: &str, separator: char) -> (result: Vec<String>)
    ensures
        texts(result@) == pieces(value@, separator),
{
    let all = chars(value);
    let mut result: Vec<String> = Vec::new();
    let mut current = String::new();
    for i in 0..all.len()
        invariant
            all@ == value@,
            texts(result@).push(current@) == pieces(value@.take(i as int), separator),
    {
        let c = all[i];
        proof {
            assert(value@.take(i + 1).drop_last() =~= value@.take(i as int));
            assert(texts(result@).push(current@).drop_last() =~= texts(result@));
        }
        if c == separator {
            let ghost whole = result@.push(current);
            result.push(current);
            assert(texts(whole) =~= texts(whole.drop_last()).push(whole.last()@));
            assert(whole.drop_last() =~= result@.drop_last());
            current = String::new();
        } else {
            current.push(c);
        }
    }
    let ghost done = result@;
    let ghost rest = current@;
    result.push(current);
    proof {
        assert(texts(result@) =~= texts(done).push(rest));
        assert(value@.take(value@.len() as int) =~= value@);
    }
    result
}

/// Writes a number in decimal notation.
pub(crate) fn decimal_text(value: u64) -> (result: String)
    ensures
        result@ == decimal(value as nat),
    decreases value,
{
    if value < 10 {
        let mut result = String::new();
        result.push(digit_char(value as u8));
        assert(result@ =~= decimal(value as nat));
        result
    } else {
        let mut result = decimal_text(value / 10);
        result.push(digit_char((value % 10) as u8));
        result
    }
}

/// The decimal digit of a number below ten.
fn digit_char(value: u8) -> (result: char)
    requires
        value < 10,
    ensures
        result == digit(value as nat),
{
    (48 + value) as char
}

/// The lowercase hexadecimal digit of a number below sixteen.
pub(crate) fn hex_char(value: u8) -> (result: char)
    requires
        value < 16,
    ensures
        result == hex_digit(value as nat),
{
    if value < 10 {
        digit_char(value)
    } else {
        (97 + (value - 10)) as char
    }
}

/// Appends the two hexadecimal digits of a byte.
pub(crate) fn push_hex_byte(target: &mut String, byte: u8)
    ensures
        final(target)@ == old(target)@ + hex_byte(byte),
{
    target.push(hex_char(byte / 16));
    target.push(hex_char(byte % 16));
    assert(target@ =~= old(target)@ + hex_byte(byte));
}

/// Writes a number in lowercase hexadecimal notation.
pub(crate) fn hex_text(value: u32) -> (result: String)
    ensures
        result@ == hex(value as nat),
    decreases value,
{
    if value < 16 {
        let mut result = String::new();
        result.push(hex_char(value as u8));
        assert(result@ =~= hex(value as nat));
        result
    } else {
        let mut result = hex_text(value / 16);
        result.push(hex_char((value % 16) as u8));
        result
    }
}

/// Whether one text comes before another in the order of their characters.
pub(crate) fn is_before(a: &str, b: &str) -> (result: bool)
    ensures
        result == before(a@, b@),
{
    let left = chars(a);
    let right = chars(b);
    let mut i: usize = 0;
    assert(a@.skip(0) =~= a@);
    assert(b@.skip(0) =~= b@);
    while i < left.len() && i < right.len()
        invariant
            left@ == a@,
            right@ == b@,
            i <= left@.len(),
            i <= right@.len(),
            before(a@, b@) == before(a@.skip(i as int), b@.skip(i as int)),
        decreases left@.len() - i,
    {
        assert(a@.skip(i as int)[0] == a@[i as int]);
        assert(b@.skip(i as int)[0] == b@[i as int]);
        if left[i] != right[i] {
            return left[i] < right[i];
        }
        assert(a@.skip(i as int).drop_first() =~= a@.skip(i + 1));
        assert(b@.skip(i as int).drop_first() =~= b@.skip(i + 1));
        i += 1;
    }
    i < right.len()
}

/// Whether a text begins with another.
pub open spec fn begins_with(value: Seq<char>, start: Seq<char>) -> bool {
    value.len() >= start.len() && value.take(start.len() as int) == start
}

/// Whether a text ends with another.
pub open spec fn ends_with(value: Seq<char>, end: Seq<char>) -> bool {
    value.len() >= end.len() && value.skip(value.len() - end.len()) == end
}

/// What follows `start` in a text that begins with it.
pub(crate) fn strip_prefix(value: &str, start: &str) -> (result: Option<String>)
    ensures
        match result {
            Some(rest) => begins_with(value@, start@) && rest@ == value@.skip(start@.len() as int),
            None => !begins_with(value@, start@),
        },
{
    let all = chars(value);
    let wanted = chars(start);
    if all.len() < wanted.len() {
        return None;
    }
    let head = vstd::slice::slice_subrange(all.as_slice(), 0, wanted.len());
    let tail = vstd::slice::slice_subrange(all.as_slice(), wanted.len(), all.len());
    assert(head@ =~= value@.take(start@.len() as int));
    assert(tail@ =~= value@.skip(start@.len() as int));
    if same(text(head).as_str(), start) {
        Some(text(tail))
    } else {
        None
    }
}

/// What precedes `end` in a text that ends with it.
pub(crate) fn strip_suffix(value: &str, end: &str) -> (result: Option<String>)
    ensures
        match result {
            Some(rest) => ends_with(value@, end@) && rest@ == value@.take(
                value@.len() - end@.len(),
            ),
            None => !ends_with(value@, end@),
        },
{
    let all = chars(value);
    let wanted = chars(end);
    if all.len() < wanted.len() {
        return None;
    }
    let cut: usize = all.len() - wanted.len();
    let head = vstd::slice::slice_subrange(all.as_slice(), 0, cut);
    let tail = vstd::slice::slice_subrange(all.as_slice(), cut, all.len());
    assert(head@ =~= value@.take(value@.len() - end@.len()));
    assert(tail@ =~= value@.skip(value@.len() - end@.len()));
    if same(text(tail).as_str(), end) {
        Some(text(head))
    } else {
        None
    }
}

/// A fixed text followed by a variable one.
pub(crate) fn with_detail(start: &str, detail: &str) -> (result: String)
    ensures
        result@ == start@ + detail@,
{
    let mut result = start.to_owned();
    result.append(detail);
    result
}

// ---------------------------------------------------------------------------
// Laws
// ---------------------------------------------------------------------------

/// The value of a digit, decimal or lowercase hexadecimal.
pub open spec fn digit_value(c: char) -> int {
    if '0' <= c <= '9' {
        c as int - '0' as int
    } else {
        c as int - 'a' as int + 10
    }
}

/// The number that digits denote in a base, the most significant first.
pub open spec fn number_of(digits: Seq<char>, base: int) -> int
    decreases digits.len(),
{
    if digits.len() == 0 {
        0
    } else {
        number_of(digits.drop_last(), base) * base + digit_value(digits.last())
    }
}

/// A number in decimal consists of decimal digits, has no needless zero in front, and reads back as
/// the number.
pub proof fn decimals_read_back(value: nat)
    ensures
        decimal(value).len() > 0,
        forall|i: int| 0 <= i < decimal(value).len() ==> '0' <= #[trigger] decimal(value)[i] <= '9',
        value > 0 ==> decimal(value)[0] != '0',
        number_of(decimal(value), 10) == value,
    decreases value,
{
    reveal_with_fuel(number_of, 2);
    if value >= 10 {
        decimals_read_back(value / 10);
        assert(decimal(value).drop_last() =~= decimal(value / 10));
        assert(decimal(value)[0] == decimal(value / 10)[0]);
    } else {
        assert(decimal(value).drop_last() =~= Seq::<char>::empty());
    }
}

/// A number in hexadecimal reads back as the number, and so do the two digits of a byte.
pub proof fn hexadecimals_read_back(value: nat, byte: u8)
    ensures
        number_of(hex(value), 16) == value,
        value > 0 ==> hex(value)[0] != '0',
        hex_byte(byte).len() == 2,
        number_of(hex_byte(byte), 16) == byte,
        forall|i: int|
            0 <= i < 2 ==> '0' <= #[trigger] hex_byte(byte)[i] <= '9' || 'a' <= hex_byte(byte)[i]
                <= 'f',
    decreases value,
{
    reveal_with_fuel(number_of, 3);
    lemma_hex_digits(value);
    if value >= 16 {
        hexadecimals_read_back(value / 16, byte);
        lemma_hex_digits(value / 16);
        assert(hex(value).drop_last() =~= hex(value / 16));
        assert(hex(value)[0] == hex(value / 16)[0]);
    } else {
        assert(hex(value).drop_last() =~= Seq::<char>::empty());
    }
    let two = hex_byte(byte);
    assert(byte / 16 < 16 && byte % 16 < 16);
    assert(two.drop_last() =~= seq![two[0]]);
    assert(two.drop_last().drop_last() =~= Seq::<char>::empty());
}

/// The pieces of a text hold no separator, and joined by it they give the text back.
pub proof fn pieces_join_back(text: Seq<char>, separator: char)
    ensures
        join(pieces(text, separator), seq![separator]) == text,
        forall|i: int|
            0 <= i < pieces(text, separator).len() ==> !(#[trigger] pieces(
                text,
                separator,
            )[i]).contains(separator),
    decreases text.len(),
{
    let all = pieces(text, separator);
    if text.len() == 0 {
        assert(all =~= seq![Seq::<char>::empty()]);
        assert(join(all, seq![separator]) =~= text);
    } else {
        let before = pieces(text.drop_last(), separator);
        pieces_join_back(text.drop_last(), separator);
        lemma_pieces_nonempty(text.drop_last(), separator);
        assert(text =~= text.drop_last().push(text.last()));
        if text.last() == separator {
            assert(all.drop_last() =~= before);
            assert(join(all, seq![separator]) =~= text);
            assert forall|i: int| 0 <= i < all.len() implies !(#[trigger] all[i]).contains(
                separator,
            ) by {
                if i < before.len() {
                    assert(all[i] == before[i]);
                }
            }
        } else {
            let longer = before.last().push(text.last());
            assert(all.drop_last() =~= before.drop_last());
            if before.len() == 1 {
                assert(join(before, seq![separator]) == before[0]);
            }
            assert(join(all, seq![separator]) =~= text);
            assert(!before[before.len() - 1].contains(separator));
            assert forall|i: int| 0 <= i < all.len() implies !(#[trigger] all[i]).contains(
                separator,
            ) by {
                if i < before.len() - 1 {
                    assert(all[i] == before[i]);
                } else if all[i].contains(separator) {
                    let k = choose|k: int| 0 <= k < longer.len() && longer[k] == separator;
                    assert(before.last()[k] == separator);
                }
            }
        }
    }
}

/// What stands before a separator and what stands behind it are split each on its own.
pub proof fn both_sides_of_a_separator_are_split(a: Seq<char>, b: Seq<char>, separator: char)
    ensures
        pieces(a + seq![separator] + b, separator) == pieces(a, separator) + pieces(b, separator),
        !a.contains(separator) ==> pieces(a, separator) == seq![a],
    decreases b.len(),
{
    let whole = a + seq![separator] + b;
    lemma_pieces_nonempty(b, separator);
    if b.len() == 0 {
        assert(whole.drop_last() =~= a);
        assert(pieces(whole, separator) =~= pieces(a, separator) + pieces(b, separator));
    } else {
        let front = b.drop_last();
        both_sides_of_a_separator_are_split(a, front, separator);
        lemma_pieces_nonempty(front, separator);
        assert(whole.drop_last() =~= a + seq![separator] + front);
        let before = pieces(a, separator) + pieces(front, separator);
        assert(before.drop_last() =~= pieces(a, separator) + pieces(front, separator).drop_last());
        assert(pieces(whole, separator) =~= pieces(a, separator) + pieces(b, separator));
    }
    if !a.contains(separator) {
        lemma_pieces_extend(Seq::empty(), a, separator);
        assert(Seq::<char>::empty() + a =~= a);
        assert(pieces(a, separator) =~= seq![a]);
    }
}

/// Texts that are joined follow one another with the separator between them.
pub proof fn joining_goes_text_by_text(
    parts: Seq<Seq<char>>,
    part: Seq<char>,
    separator: Seq<char>,
)
    ensures
        join(Seq::empty(), separator) == Seq::<char>::empty(),
        join(seq![part], separator) == part,
        parts.len() > 0 ==> join(parts.push(part), separator) == join(parts, separator) + separator
            + part,
{
    assert(parts.push(part).drop_last() =~= parts);
}

/// Texts are in the order of their first difference, and a text goes before its extensions.
pub proof fn texts_are_ordered_by_their_first_difference(
    start: Seq<char>,
    a: char,
    b: char,
    x: Seq<char>,
    y: Seq<char>,
)
    ensures
        before(start.push(a) + x, start.push(b) + y) <==> a < b || (a == b && before(x, y)),
        before(start, start.push(b) + y),
        !before(start.push(b) + y, start),
        !before(start, start),
    decreases start.len(),
{
    let left = start.push(a) + x;
    let right = start.push(b) + y;
    if start.len() == 0 {
        assert(left.drop_first() =~= x);
        assert(right.drop_first() =~= y);
    } else {
        let rest = start.drop_first();
        texts_are_ordered_by_their_first_difference(rest, a, b, x, y);
        assert(left.drop_first() =~= rest.push(a) + x);
        assert(right.drop_first() =~= rest.push(b) + y);
        assert(left[0] == start[0] && right[0] == start[0]);
    }
}

/// Padding keeps the text in front, adds nothing but spaces, and reaches the width exactly where
/// the text does not exceed it.
pub proof fn padding_only_adds_spaces(text: Seq<char>, width: nat)
    ensures
        pad_right(text, width).len() == if text.len() < width {
            width
        } else {
            text.len()
        },
        text.is_prefix_of(pad_right(text, width)),
        forall|i: int|
            text.len() <= i < pad_right(text, width).len() ==> #[trigger] pad_right(text, width)[i]
                == ' ',
{
    assert(pad_right(text, width).subrange(0, text.len() as int) =~= text);
}

/// A text begins with another exactly if something follows it there, and ends with another exactly
/// if something precedes it there.
pub proof fn starts_and_ends_are_split_off(value: Seq<char>, part: Seq<char>, rest: Seq<char>)
    ensures
        begins_with(part + rest, part),
        ends_with(rest + part, part),
        begins_with(value, part) ==> value == part + value.skip(part.len() as int),
        ends_with(value, part) ==> value == value.take(value.len() - part.len()) + part,
        (part + rest).skip(part.len() as int) == rest,
        (rest + part).take((rest + part).len() - part.len()) == rest,
{
    assert((part + rest).take(part.len() as int) =~= part);
    assert((rest + part).skip(rest.len() as int) =~= part);
    assert((part + rest).skip(part.len() as int) =~= rest);
    assert((rest + part).take(rest.len() as int) =~= rest);
    if begins_with(value, part) {
        assert(value =~= value.take(part.len() as int) + value.skip(part.len() as int));
    }
    if ends_with(value, part) {
        let at = value.len() - part.len();
        assert(value =~= value.take(at) + value.skip(at));
    }
}

/// The control characters are those below the space, DEL and the 32 that follow it.
pub proof fn control_characters_lie_in_two_ranges(c: char)
    ensures
        c < ' ' ==> is_control(c),
        ' ' <= c <= '~' ==> !is_control(c),
        '\u{7f}' <= c <= '\u{9f}' ==> is_control(c),
        c > '\u{9f}' ==> !is_control(c),
{
}

/// A list of strings and an optional string are seen as what they hold, one for one.
pub proof fn strings_are_seen_as_their_text(list: Seq<String>, value: Option<String>)
    ensures
        texts(list).len() == list.len(),
        forall|i: int| 0 <= i < list.len() ==> #[trigger] texts(list)[i] == list[i]@,
        value is Some <==> text_option(value) is Some,
        value matches Some(text) ==> text_option(value) == Some(text@),
{
}

} // verus!
