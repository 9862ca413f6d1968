//! Text as a sequence of characters: the pieces that parsing, naming and message building share.
use vstd::prelude::*;
use vstd::string::*;

verus! {

/// `String::push` appends one character to the end of the string.
pub assume_specification[ String::push ](s: &mut String, c: char)
    ensures
        final(s)@ == old(s)@.push(c),
;

/// Whether `c` has the Unicode `White_Space` property.
pub open spec fn is_whitespace(c: char) -> bool {
    let n = c as int;
    ||| 0x09 <= n <= 0x0d
    ||| n == 0x20
    ||| n == 0x85
    ||| n == 0xa0
    ||| n == 0x1680
    ||| 0x2000 <= n <= 0x200a
    ||| n == 0x2028
    ||| n == 0x2029
    ||| n == 0x202f
    ||| n == 0x205f
    ||| n == 0x3000
}

/// Whether `c` is in the Unicode general category `Cc`.
pub open spec fn is_control(c: char) -> bool {
    let n = c as int;
    n <= 0x1f || 0x7f <= n <= 0x9f
}

/// `c` with an ASCII upper-case letter replaced by its lower-case form.
pub open spec fn ascii_lower(c: char) -> char {
    if 'A' <= c <= 'Z' {
        (c as int + 32) as char
    } else {
        c
    }
}

/// `s` with every ASCII upper-case letter replaced by its lower-case form.
pub open spec fn lowered(s: Seq<char>) -> Seq<char> {
    Seq::new(s.len(), |i: int| ascii_lower(s[i]))
}

/// Whether `a` and `b` differ at most in the case of ASCII letters.
pub open spec fn same_ignoring_case(a: Seq<char>, b: Seq<char>) -> bool {
    lowered(a) == lowered(b)
}

/// `s` without the white space at its start.
pub open spec fn trimmed_start(s: Seq<char>) -> Seq<char>
    decreases s.len(),
{
    if s.len() > 0 && is_whitespace(s[0]) {
        trimmed_start(s.drop_first())
    } else {
        s
    }
}

/// `s` without the white space at its end.
pub open spec fn trimmed_end(s: Seq<char>) -> Seq<char>
    decreases s.len(),
{
    if s.len() > 0 && is_whitespace(s.last()) {
        trimmed_end(s.drop_last())
    } else {
        s
    }
}

/// `s` without the white space at either end.
pub open spec fn trimmed(s: Seq<char>) -> Seq<char> {
    trimmed_end(trimmed_start(s))
}

/// The character of the decimal digit `n`.
pub open spec fn digit(n: int) -> char {
    ('0' as int + n) as char
}

/// The decimal digits of `n`, without leading zeros.
pub open spec fn decimal(n: nat) -> Seq<char>
    decreases n,
{
    if n < 10 {
        seq![digit(n as int)]
    } else {
        decimal(n / 10).push(digit((n % 10) as int))
    }
}

/// `count` zeros.
pub open spec fn zeros(count: int) -> Seq<char> {
    Seq::new(if count < 0 { 0 } else { count as nat }, |i: int| '0')
}

/// The decimal digits of `n`, led by zeros up to `width` characters.
pub open spec fn padded(n: nat, width: nat) -> Seq<char> {
    zeros(width - decimal(n).len()) + decimal(n)
}

/// Whether the text holds nothing but white space.
pub open spec fn is_blank(s: Seq<char>) -> bool {
    trimmed(s).len() == 0
}

/// Whether `a` comes strictly before `b` when the first differing character decides and a text
/// comes before its own extensions.
pub open spec fn precedes(a: Seq<char>, b: Seq<char>) -> bool
    decreases a.len(),
{
    if b.len() == 0 {
        false
    } else if a.len() == 0 {
        true
    } else if a[0] != b[0] {
        (a[0] as int) < (b[0] as int)
    } else {
        precedes(a.drop_first(), b.drop_first())
    }
}

/// The pieces of `s` between the separators.
pub open spec fn split(s: Seq<char>, separator: char) -> Seq<Seq<char>>
    decreases s.len(),
{
    if s.len() == 0 {
        seq![Seq::<char>::empty()]
    } else {
        let before = split(s.drop_last(), separator);
        if s.last() == separator {
            before.push(Seq::<char>::empty())
        } else {
            before.drop_last().push(before.last().push(s.last()))
        }
    }
}

/// The pieces, with the separator between neighbours.
pub open spec fn join(pieces: Seq<Seq<char>>, separator: char) -> Seq<char>
    decreases pieces.len(),
{
    if pieces.len() == 0 {
        Seq::<char>::empty()
    } else if pieces.len() == 1 {
        pieces[0]
    } else {
        join(pieces.drop_last(), separator).push(separator) + pieces.last()
    }
}

/// The texts that a list of strings holds.
pub open spec fn texts(list: Seq<String>) -> Seq<Seq<char>> {
    Seq::new(list.len(), |i: int| list[i]@)
}

/// A text without the separator is its own only piece.
pub proof fn lemma_split_single(s: Seq<char>, separator: char)
    requires
        !s.contains(separator),
    ensures
        split(s, separator) == seq![s],
    decreases s.len(),
{
    if s.len() > 0 {
        lemma_split_single(s.drop_last(), separator);
        assert(s.drop_last().push(s.last()) =~= s);
    } else {
        assert(s =~= Seq::<char>::empty());
    }
}

/// A separator followed by a text without separators adds that text as the last piece.
pub proof fn lemma_split_append(s: Seq<char>, separator: char, tail: Seq<char>)
    requires
        !tail.contains(separator),
    ensures
        split(s.push(separator) + tail, separator) == split(s, separator).push(tail),
    decreases tail.len(),
{
    let whole = s.push(separator) + tail;
    if tail.len() == 0 {
        assert(whole.drop_last() =~= s);
        assert(tail =~= Seq::<char>::empty());
    } else {
        let shorter = tail.drop_last();
        lemma_split_append(s, separator, shorter);
        assert(whole.drop_last() =~= s.push(separator) + shorter);
        assert(shorter.push(tail.last()) =~= tail);
    }
}

/// Splitting undoes joining, as long as no piece holds the separator.
pub proof fn lemma_split_join(pieces: Seq<Seq<char>>, separator: char)
    requires
        pieces.len() >= 1,
        forall|i: int| 0 <= i < pieces.len() ==> !(#[trigger] pieces[i]).contains(separator),
    ensures
        split(join(pieces, separator), separator) == pieces,
    decreases pieces.len(),
{
    if pieces.len() == 1 {
        lemma_split_single(pieces[0], separator);
    } else {
        let before = pieces.drop_last();
        lemma_split_join(before, separator);
        lemma_split_append(join(before, separator), separator, pieces.last());
    }
}

/// The first and the last character of joined pieces.
pub proof fn lemma_join_ends(pieces: Seq<Seq<char>>, separator: char)
    requires
        pieces.len() >= 1,
        forall|i: int| 0 <= i < pieces.len() ==> (#[trigger] pieces[i]).len() > 0,
    ensures
        join(pieces, separator).len() > 0,
        join(pieces, separator)[0] == pieces[0][0],
        join(pieces, separator).last() == pieces.last().last(),
    decreases pieces.len(),
{
    if pieces.len() > 1 {
        lemma_join_ends(pieces.drop_last(), separator);
    }
}

/// A text that starts and ends with something other than white space is already trimmed.
pub proof fn lemma_trimmed_same(s: Seq<char>)
    requires
        s.len() > 0 ==> !is_whitespace(s[0]) && !is_whitespace(s.last()),
    ensures
        trimmed(s) == s,
{
}

/// Whether `s` begins with `prefix`.
pub open spec fn starts_with(s: Seq<char>, prefix: Seq<char>) -> bool {
    s.len() >= prefix.len() && s.take(prefix.len() as int) == prefix
}

/// Whether `pattern` stands in `s` at position `i`.
pub open spec fn stands_at(s: Seq<char>, i: int, pattern: Seq<char>) -> bool {
    0 <= i && i + pattern.len() <= s.len() && s.subrange(i, i + pattern.len()) == pattern
}

/// `s` from position `i` on, with each `pattern` in it replaced, the leftmost first.
pub open spec fn replaced_from(
    s: Seq<char>,
    i: int,
    pattern: Seq<char>,
    replacement: Seq<char>,
) -> Seq<char>
    decreases s.len() - i,
{
    if i < 0 || i >= s.len() || pattern.len() == 0 {
        Seq::empty()
    } else if stands_at(s, i, pattern) {
        replacement + replaced_from(s, i + pattern.len(), pattern, replacement)
    } else {
        seq![s[i]] + replaced_from(s, i + 1, pattern, replacement)
    }
}

/// `s` with each `pattern` in it replaced, the leftmost first.
pub open spec fn replaced(s: Seq<char>, pattern: Seq<char>, replacement: Seq<char>) -> Seq<char> {
    replaced_from(s, 0, pattern, replacement)
}

/// The text of a string as `{:?}` writes it: quoted, with its special characters escaped.
pub uninterp spec fn debug_text(text: Seq<char>) -> Seq<char>;

/// `<str as Debug>::fmt`, which quotes a text and escapes its special characters.
#[verifier::external_body]
pub(crate) fn quoted(text: &str) -> (out: String)
    ensures
        out@ == debug_text(text@),
{
    format!("{text:?}")
}

/// The position of the first `c` in `s`, or the length of `s` where there is none.
pub open spec fn position(s: Seq<char>, c: char) -> int
    decreases s.len(),
{
    if s.len() == 0 || s[0] == c {
        0
    } else {
        1 + position(s.drop_first(), c)
    }
}

/// The first position is within the text, holds the character, and no earlier one does.
pub proof fn lemma_position(s: Seq<char>, c: char)
    ensures
        0 <= position(s, c) <= s.len(),
        position(s, c) < s.len() ==> s[position(s, c)] == c,
        forall|i: int| 0 <= i < position(s, c) ==> s[i] != c,
        position(s, c) == s.len() <==> !s.contains(c),
    decreases s.len(),
{
    if s.len() > 0 && s[0] != c {
        let rest = s.drop_first();
        lemma_position(rest, c);
        assert forall|i: int| 0 <= i < position(s, c) implies s[i] != c by {
            if i > 0 {
                assert(rest[i - 1] == s[i]);
            }
        }
    } else if s.len() > 0 {
        assert(s.contains(c));
    }
}

/// The characters of `text`, in order.
pub fn chars_of(text: &str) -> (out: Vec<char>)
    ensures
        out@ == text@,
{
    let mut out: Vec<char> = Vec::new();
    for c in it: text.chars()
        invariant
            out@ == it.seq().take(it.index()),
            it.seq() == text@,
    {
        out.push(c);
    }
    out
}

/// The text that `chars[from..to]` spells.
pub fn text_between(chars: &Vec<char>, from: usize, to: usize) -> (out: String)
    requires
        from <= to <= chars@.len(),
    ensures
        out@ == chars@.subrange(from as int, to as int),
{
    let mut out = String::new();
    let mut i: usize = from;
    while i < to
        invariant
            from <= i <= to <= chars@.len(),
            out@ == chars@.subrange(from as int, i as int),
        decreases to - i,
    {
        out.push(chars[i]);
        i += 1;
    }
    out
}

/// The text that `chars` spells.
pub fn text_of(chars: &Vec<char>) -> (out: String)
    ensures
        out@ == chars@,
{
    text_between(chars, 0, chars.len())
}

/// The pieces of `text` between the separators.
pub fn split_text(text: &str, separator: char) -> (pieces: Vec<String>)
    ensures
        texts(pieces@) == split(text@, separator),
{
    let chars = chars_of(text);
    let mut pieces: Vec<String> = Vec::new();
    let mut current = String::new();
    let mut i: usize = 0;
    while i < chars.len()
        invariant
            i <= chars@.len(),
            chars@ == text@,
            texts(pieces@).push(current@) == split(text@.take(i as int), separator),
        decreases chars@.len() - i,
    {
        let c = chars[i];
        proof {
            assert(text@.take(i + 1).drop_last() =~= text@.take(i as int));
        }
        if c == separator {
            pieces.push(current);
            current = String::new();
        } else {
            current.push(c);
        }
        i += 1;
    }
    proof {
        assert(text@.take(text@.len() as int) =~= text@);
    }
    pieces.push(current);
    pieces
}

/// The position of the first `c` at or behind `from`, or the end where there is none.
pub fn find_from(chars: &Vec<char>, from: usize, c: char) -> (at: usize)
    requires
        from <= chars@.len(),
    ensures
        at == from + position(chars@.skip(from as int), c),
        from <= at <= chars@.len(),
        at < chars@.len() ==> chars@[at as int] == c,
{
    let mut at: usize = from;
    while at < chars.len() && chars[at] != c
        invariant
            from <= at <= chars@.len(),
            from + position(chars@.skip(from as int), c) == at + position(
                chars@.skip(at as int),
                c,
            ),
        decreases chars@.len() - at,
    {
        proof {
            assert(chars@.skip(at as int).drop_first() =~= chars@.skip(at + 1));
        }
        at += 1;
    }
    at
}

/// Whether `c` stands in `text`.
pub fn contains_char(text: &str, c: char) -> (found: bool)
    ensures
        found == text@.contains(c),
{
    let chars = chars_of(text);
    let at: usize = find_from(&chars, 0, c);
    proof {
        assert(chars@.skip(0) =~= text@);
        lemma_position(text@, c);
    }
    at < chars.len()
}

/// Whether the two texts hold the same characters.
pub fn same(a: &str, b: &str) -> (equal: bool)
    ensures
        equal == (a@ == b@),
{
    a.to_owned() == b.to_owned()
}

/// Whether a list holds a text.
pub fn is_among(text: &str, list: &Vec<String>) -> (found: bool)
    ensures
        found == texts(list@).contains(text@),
{
    let mut i: usize = 0;
    while i < list.len()
        invariant
            i <= list@.len(),
            forall|j: int| 0 <= j < i ==> (#[trigger] list@[j])@ != text@,
        decreases list@.len() - i,
    {
        if same(list[i].as_str(), text) {
            proof {
                assert(texts(list@)[i as int] == text@);
            }
            return true;
        }
        i += 1;
    }
    proof {
        if texts(list@).contains(text@) {
            let j = choose|j: int| 0 <= j < texts(list@).len() && texts(list@)[j] == text@;
            assert(list@[j]@ == text@);
        }
    }
    false
}

/// Whether `text` is one of `options`.
pub fn is_one_of(text: &str, options: &Vec<&str>) -> (found: bool)
    ensures
        found == exists|i: int| 0 <= i < options@.len() && (#[trigger] options@[i])@ == text@,
{
    let mut i: usize = 0;
    while i < options.len()
        invariant
            i <= options@.len(),
            forall|j: int| 0 <= j < i ==> (#[trigger] options@[j])@ != text@,
        decreases options@.len() - i,
    {
        if same(options[i], text) {
            return true;
        }
        i += 1;
    }
    false
}

/// Whether `c` is white space.
pub fn whitespace(c: char) -> (yes: bool)
    ensures
        yes == is_whitespace(c),
{
    let n: u32 = c as u32;
    (0x09 <= n && n <= 0x0d) || n == 0x20 || n == 0x85 || n == 0xa0 || n == 0x1680 || (0x2000 <= n
        && n <= 0x200a) || n == 0x2028 || n == 0x2029 || n == 0x202f || n == 0x205f || n == 0x3000
}

/// Whether `c` is a control character.
pub fn control(c: char) -> (yes: bool)
    ensures
        yes == is_control(c),
{
    let n: u32 = c as u32;
    n <= 0x1f || (0x7f <= n && n <= 0x9f)
}

/// `c`, with an ASCII capital made small.
pub fn lower_char(c: char) -> (out: char)
    ensures
        out == ascii_lower(c),
{
    if 'A' <= c && c <= 'Z' {
        let code: u8 = c as u8;
        (code + 32) as char
    } else {
        c
    }
}

/// `text`, with ASCII capitals made small.
pub fn lower(text: &str) -> (out: String)
    ensures
        out@ == lowered(text@),
{
    let chars = chars_of(text);
    let mut out = String::new();
    let mut i: usize = 0;
    while i < chars.len()
        invariant
            i <= chars@.len(),
            chars@ == text@,
            out@ == lowered(text@).take(i as int),
        decreases chars@.len() - i,
    {
        out.push(lower_char(chars[i]));
        i += 1;
    }
    out
}

/// Whether the texts differ at most in the case of ASCII letters.
pub fn eq_ignore_ascii_case(a: &str, b: &str) -> (equal: bool)
    ensures
        equal == same_ignoring_case(a@, b@),
{
    lower(a) == lower(b)
}

/// What follows `prefix` in `text`.
pub fn strip_prefix(text: &str, prefix: &str) -> (rest: Option<String>)
    ensures
        match rest {
            Some(rest) => starts_with(text@, prefix@) && rest@ == text@.skip(prefix@.len() as int),
            None => !starts_with(text@, prefix@),
        },
{
    let chars = chars_of(text);
    let length: usize = prefix.unicode_len();
    if chars.len() < length {
        return None;
    }
    if same(text_between(&chars, 0, length).as_str(), prefix) {
        Some(text_between(&chars, length, chars.len()))
    } else {
        None
    }
}

/// `text` with each `pattern` in it replaced, the leftmost first.
pub fn replace(text: &str, pattern: &str, replacement: &str) -> (out: String)
    requires
        pattern@.len() > 0,
    ensures
        out@ == replaced(text@, pattern@, replacement@),
{
    let chars = chars_of(text);
    let length: usize = pattern.unicode_len();
    let mut out = String::new();
    let mut i: usize = 0;
    while i < chars.len()
        invariant
            i <= chars@.len(),
            chars@ == text@,
            length == pattern@.len(),
            length > 0,
            out@ + replaced_from(text@, i as int, pattern@, replacement@) == replaced(
                text@,
                pattern@,
                replacement@,
            ),
        decreases chars@.len() - i,
    {
        let found = if chars.len() - i >= length {
            same(text_between(&chars, i, i + length).as_str(), pattern)
        } else {
            false
        };
        if found {
            out.append(replacement);
            i += length;
        } else {
            let c = chars[i];
            out.push(c);
            i += 1;
        }
    }
    out
}

/// `text` without the white space around it.
pub fn trim(text: &str) -> (out: String)
    ensures
        out@ == trimmed(text@),
{
    let chars = chars_of(text);
    proof {
        assert(chars@.subrange(0, chars@.len() as int) =~= text@);
    }
    trim_chars(&chars, 0, chars.len())
}

/// The text between two positions, without the white space around it.
pub fn trim_chars(chars: &Vec<char>, from: usize, to: usize) -> (out: String)
    requires
        from <= to <= chars@.len(),
    ensures
        out@ == trimmed(chars@.subrange(from as int, to as int)),
{
    let ghost whole = chars@.subrange(from as int, to as int);
    let mut start: usize = from;
    while start < to && whitespace(chars[start])
        invariant
            from <= start <= to <= chars@.len(),
            trimmed_start(whole) == trimmed_start(chars@.subrange(start as int, to as int)),
        decreases to - start,
    {
        proof {
            let rest = chars@.subrange(start as int, to as int);
            assert(rest.drop_first() =~= chars@.subrange(start + 1, to as int));
        }
        start += 1;
    }
    let mut end: usize = to;
    while end > start && whitespace(chars[end - 1])
        invariant
            from <= start <= end <= to <= chars@.len(),
            trimmed(whole) == trimmed_end(chars@.subrange(start as int, end as int)),
        decreases end,
    {
        proof {
            let rest = chars@.subrange(start as int, end as int);
            assert(rest.drop_last() =~= chars@.subrange(start as int, end - 1));
        }
        end -= 1;
    }
    text_between(chars, start, end)
}

/// The character of a decimal digit.
fn digit_char(n: u8) -> (c: char)
    requires
        n < 10,
    ensures
        c == digit(n as int),
{
    (48 + n) as char
}

/// `n` in decimal.
pub fn decimal_text(n: u64) -> (out: String)
    ensures
        out@ == decimal(n as nat),
    decreases n,
{
    if n < 10 {
        let mut out = String::new();
        out.push(digit_char(n as u8));
        out
    } else {
        let mut out = decimal_text(n / 10);
        out.push(digit_char((n % 10) as u8));
        out
    }
}

/// A number is written in digits.
pub proof fn lemma_decimal_digits(n: nat)
    ensures
        decimal(n).len() > 0,
        forall|i: int| 0 <= i < decimal(n).len() ==> '0' <= #[trigger] decimal(n)[i] <= '9',
    decreases n,
{
    if n >= 10 {
        lemma_decimal_digits(n / 10);
    }
}

/// Numbers with the same digits are the same.
pub proof fn lemma_decimal_injective(a: nat, b: nat)
    requires
        decimal(a) == decimal(b),
    ensures
        a == b,
    decreases a,
{
    let (last_a, last_b) = (a % 10, b % 10);
    assert(decimal(a).last() == digit(last_a as int));
    if a >= 10 {
        assert(decimal(a).len() == decimal(a / 10).len() + 1);
    }
    if b >= 10 {
        assert(decimal(b).len() == decimal(b / 10).len() + 1);
    }
    if a >= 10 && b >= 10 {
        assert(decimal(a).drop_last() =~= decimal(a / 10));
        assert(decimal(b).drop_last() =~= decimal(b / 10));
        lemma_decimal_injective(a / 10, b / 10);
    }
}

/// `n` in decimal, led by zeros up to `width` characters.
pub fn padded_text(n: u64, width: usize) -> (out: String)
    ensures
        out@ == padded(n as nat, width as nat),
{
    let digits = decimal_text(n);
    let length: usize = digits.as_str().unicode_len();
    let mut out = String::new();
    let mut count: usize = length;
    while count < width
        invariant
            length == decimal(n as nat).len(),
            length <= count,
            count <= width || count == length,
            out@ == zeros(count - length),
        decreases width - count,
    {
        out.push('0');
        count += 1;
    }
    out.append(digits.as_str());
    out
}

/// Texts of one length that are in order stay so, whatever follows them.
pub proof fn lemma_precedes_whatever_follows(
    a: Seq<char>,
    b: Seq<char>,
    after_a: Seq<char>,
    after_b: Seq<char>,
)
    requires
        a.len() == b.len(),
        precedes(a, b),
    ensures
        precedes(a + after_a, b + after_b),
    decreases a.len(),
{
    assert((a + after_a).drop_first() =~= a.drop_first() + after_a);
    assert((b + after_b).drop_first() =~= b.drop_first() + after_b);
    if a[0] == b[0] {
        lemma_precedes_whatever_follows(a.drop_first(), b.drop_first(), after_a, after_b);
    }
}

/// Texts that are in order stay so behind the same start.
pub proof fn lemma_precedes_behind(start: Seq<char>, a: Seq<char>, b: Seq<char>)
    requires
        precedes(a, b),
    ensures
        precedes(start + a, start + b),
    decreases start.len(),
{
    if start.len() == 0 {
        assert(start + a =~= a);
        assert(start + b =~= b);
    } else {
        assert((start + a).drop_first() =~= start.drop_first() + a);
        assert((start + b).drop_first() =~= start.drop_first() + b);
        lemma_precedes_behind(start.drop_first(), a, b);
    }
}

/// The smallest number with more than so many digits.
pub open spec fn ten_to(width: nat) -> nat
    decreases width,
{
    if width == 0 {
        1
    } else {
        10 * ten_to((width - 1) as nat)
    }
}

/// A number that fits is as long as its width, made of digits, and ends in its last one.
pub proof fn lemma_padded(n: nat, width: nat)
    requires
        width > 0,
        n < ten_to(width),
    ensures
        padded(n, width).len() == width,
        forall|i: int| 0 <= i < width ==> '0' <= #[trigger] padded(n, width)[i] <= '9',
        width > 1 ==> padded(n, width) == padded(n / 10, (width - 1) as nat).push(
            digit((n % 10) as int),
        ),
    decreases width,
{
    reveal_with_fuel(ten_to, 2);
    if width > 1 {
        let shorter = (width - 1) as nat;
        lemma_padded(n / 10, shorter);
        if n < 10 {
            assert(padded(n, width) =~= padded(n / 10, shorter).push(digit((n % 10) as int)));
        } else {
            assert(padded(n, width) =~= padded(n / 10, shorter).push(digit((n % 10) as int)));
        }
    }
}

/// Numbers that fit are in the order of their texts.
pub proof fn lemma_padded_precedes(a: nat, b: nat, width: nat)
    requires
        width > 0,
        a < b < ten_to(width),
    ensures
        precedes(padded(a, width), padded(b, width)),
    decreases width,
{
    lemma_padded(a, width);
    lemma_padded(b, width);
    reveal_with_fuel(ten_to, 2);
    if width > 1 {
        let shorter = (width - 1) as nat;
        let (last_a, last_b) = (seq![digit((a % 10) as int)], seq![digit((b % 10) as int)]);
        lemma_padded(a / 10, shorter);
        lemma_padded(b / 10, shorter);
        assert(padded(a, width) =~= padded(a / 10, shorter) + last_a);
        assert(padded(b, width) =~= padded(b / 10, shorter) + last_b);
        if a / 10 < b / 10 {
            lemma_padded_precedes(a / 10, b / 10, shorter);
            lemma_precedes_whatever_follows(
                padded(a / 10, shorter),
                padded(b / 10, shorter),
                last_a,
                last_b,
            );
        } else {
            lemma_precedes_behind(padded(a / 10, shorter), last_a, last_b);
        }
    }
}

/// The number that digits say.
pub open spec fn number_in(digits: Seq<char>) -> int
    decreases digits.len(),
{
    if digits.len() == 0 {
        0
    } else {
        number_in(digits.drop_last()) * 10 + (digits.last() as int - '0' as int)
    }
}

/// A number is written so that its digits say it, without a zero in front of others.
pub proof fn law_decimals_read_back(n: nat)
    ensures
        number_in(decimal(n)) == n,
        decimal(n).len() > 0,
        forall|i: int| 0 <= i < decimal(n).len() ==> '0' <= #[trigger] decimal(n)[i] <= '9',
        decimal(n).len() > 1 ==> decimal(n)[0] != '0',
    decreases n,
{
    lemma_decimal_digits(n);
    assert(decimal(n).last() == digit((n % 10) as int));
    assert(digit((n % 10) as int) as int == '0' as int + n % 10);
    reveal_with_fuel(number_in, 2);
    if n >= 10 {
        law_decimals_read_back(n / 10);
        lemma_decimal_digits(n / 10);
        assert(decimal(n).drop_last() =~= decimal(n / 10));
        assert(decimal(n)[0] == decimal(n / 10)[0]);
        if n < 100 {
            assert(decimal(n / 10) == seq![digit((n / 10) as int)]);
        } else {
            assert(decimal(n / 10).len() == decimal(n / 10 / 10).len() + 1);
            lemma_decimal_digits(n / 10 / 10);
        }
    } else {
        assert(decimal(n).drop_last() =~= Seq::<char>::empty());
    }
}

/// A number that is led by zeros says the same, and is as wide as was asked where it would be
/// narrower.
pub proof fn law_padded_numbers_read_back(n: nat, width: nat)
    ensures
        number_in(padded(n, width)) == n,
        padded(n, width).len() == if decimal(n).len() < width {
            width
        } else {
            decimal(n).len()
        },
        forall|i: int| 0 <= i < padded(n, width).len() ==> '0' <= #[trigger] padded(n, width)[i] <= '9',
    decreases width,
{
    law_decimals_read_back(n);
    lemma_decimal_digits(n);
    lemma_leading_zeros(width - decimal(n).len(), decimal(n));
}

/// Zeros in front of digits do not change what they say.
proof fn lemma_leading_zeros(count: int, digits: Seq<char>)
    ensures
        number_in(zeros(count) + digits) == number_in(digits),
    decreases digits.len(), count,
{
    if digits.len() > 0 {
        lemma_leading_zeros(count, digits.drop_last());
        assert((zeros(count) + digits).drop_last() =~= zeros(count) + digits.drop_last());
    } else if count > 0 {
        lemma_leading_zeros(count - 1, digits);
        assert((zeros(count) + digits).drop_last() =~= zeros(count - 1) + digits);
    } else {
        assert(zeros(count) + digits =~= digits);
    }
}

/// The characters that count as white space, and those that count as control characters.
pub proof fn law_what_white_space_and_control_characters_are(c: char)
    ensures
        is_whitespace(c) <==> c == '\t' || c == '\n' || c == '\u{b}' || c == '\u{c}' || c == '\r' || c
            == ' ' || c == '\u{85}' || c == '\u{a0}' || c == '\u{1680}' || '\u{2000}' <= c
            <= '\u{200a}' || c == '\u{2028}' || c == '\u{2029}' || c == '\u{202f}' || c
            == '\u{205f}' || c == '\u{3000}',
        is_control(c) <==> c < ' ' || '\u{7f}' <= c < '\u{a0}',
{
}

/// A text without the white space around it is a stretch of the text that neither starts nor ends
/// with white space, and all around the stretch is white space.
pub proof fn law_trimming_takes_white_space_off(s: Seq<char>) -> (from: int)
    ensures
        0 <= from,
        from + trimmed(s).len() <= s.len(),
        trimmed(s) == s.subrange(from, from + trimmed(s).len()),
        forall|i: int|
            0 <= i < s.len() && (i < from || i >= from + trimmed(s).len()) ==> is_whitespace(
                #[trigger] s[i],
            ),
        trimmed(s).len() > 0 ==> !is_whitespace(trimmed(s)[0]) && !is_whitespace(trimmed(s).last()),
{
    let from = lemma_trimmed_front(s);
    let front = trimmed_start(s);
    lemma_trimmed_back(front);
    assert(trimmed(s) =~= s.subrange(from, from + trimmed(s).len()));
    assert forall|i: int|
        0 <= i < s.len() && (i < from || i >= from + trimmed(s).len()) implies is_whitespace(
        #[trigger] s[i],
    ) by {
        if i >= from {
            assert(front[i - from] == s[i]);
        }
    }
    from
}

/// What is taken off the start of a text is white space.
proof fn lemma_trimmed_front(s: Seq<char>) -> (from: int)
    ensures
        0 <= from <= s.len(),
        trimmed_start(s) == s.skip(from),
        forall|i: int| 0 <= i < from ==> is_whitespace(#[trigger] s[i]),
        from < s.len() ==> !is_whitespace(s[from]),
    decreases s.len(),
{
    if s.len() > 0 && is_whitespace(s[0]) {
        let rest = s.drop_first();
        let from = lemma_trimmed_front(rest);
        assert(rest.skip(from) =~= s.skip(from + 1));
        assert forall|i: int| 0 <= i < from + 1 implies is_whitespace(#[trigger] s[i]) by {
            if i > 0 {
                assert(rest[i - 1] == s[i]);
            }
        }
        from + 1
    } else {
        assert(s.skip(0) =~= s);
        0
    }
}

/// What is taken off the end of a text is white space.
proof fn lemma_trimmed_back(s: Seq<char>)
    ensures
        trimmed_end(s).len() <= s.len(),
        trimmed_end(s) == s.take(trimmed_end(s).len() as int),
        forall|i: int| trimmed_end(s).len() <= i < s.len() ==> is_whitespace(#[trigger] s[i]),
        trimmed_end(s).len() > 0 ==> !is_whitespace(trimmed_end(s).last()),
        s.len() > 0 && !is_whitespace(s[0]) ==> trimmed_end(s).len() > 0,
    decreases s.len(),
{
    if s.len() > 0 && is_whitespace(s.last()) {
        let rest = s.drop_last();
        lemma_trimmed_back(rest);
        assert forall|i: int| trimmed_end(s).len() <= i < s.len() implies is_whitespace(
            #[trigger] s[i],
        ) by {
            if i < s.len() - 1 {
                assert(rest[i] == s[i]);
            }
        }
        if rest.len() == 0 {
            assert(s[0] == s.last());
        }
    } else {
        assert(s.take(s.len() as int) =~= s);
    }
}

/// A small letter is the one 32 places behind its capital, for the letters of the English alphabet,
/// and every other character stays.
pub proof fn law_capitals_become_small(s: Seq<char>, i: int)
    requires
        0 <= i < s.len(),
    ensures
        lowered(s).len() == s.len(),
        'A' <= s[i] <= 'Z' ==> lowered(s)[i] as int == s[i] as int + 32,
        !('A' <= s[i] <= 'Z') ==> lowered(s)[i] == s[i],
{
}

/// The pieces of a text between separators hold none, and put together again with the separator they
/// are the text.
pub proof fn law_pieces_make_up_their_text(s: Seq<char>, separator: char)
    ensures
        split(s, separator).len() > 0,
        join(split(s, separator), separator) == s,
        forall|i: int|
            0 <= i < split(s, separator).len() ==> !(#[trigger] split(s, separator)[i]).contains(
                separator,
            ),
    decreases s.len(),
{
    if s.len() > 0 {
        let front = s.drop_last();
        law_pieces_make_up_their_text(front, separator);
        let before = split(front, separator);
        let pieces = split(s, separator);
        if s.last() == separator {
            assert(pieces.drop_last() =~= before);
            assert(join(pieces, separator) =~= s);
        } else {
            assert(pieces.drop_last() =~= before.drop_last());
            assert(pieces.last() == before.last().push(s.last()));
            if before.len() == 1 {
                assert(before.last() == before[0]);
                assert(join(before, separator) == before[0]);
                assert(join(pieces, separator) == pieces[0]);
            } else {
                assert(join(before, separator) == join(before.drop_last(), separator).push(
                    separator,
                ) + before.last());
                assert(join(pieces, separator) == join(pieces.drop_last(), separator).push(
                    separator,
                ) + pieces.last());
            }
            assert(join(pieces, separator) =~= front.push(s.last()));
            assert(front.push(s.last()) =~= s);
        }
        assert forall|i: int| 0 <= i < pieces.len() implies !(#[trigger] pieces[i]).contains(
            separator,
        ) by {
            if s.last() == separator {
                if i < before.len() {
                    assert(pieces[i] == before[i]);
                }
            } else if i < before.len() - 1 {
                assert(pieces[i] == before[i]);
            } else {
                let piece = before[before.len() - 1];
                assert(!piece.contains(separator));
                let longer = pieces[i];
                if longer.contains(separator) {
                    let j = choose|j: int| 0 <= j < longer.len() && longer[j] == separator;
                    if j < piece.len() {
                        assert(piece[j] == separator);
                    }
                }
            }
        }
    } else {
        let pieces = split(s, separator);
        assert(pieces[0].len() == 0);
        assert(join(pieces, separator) =~= s);
    }
}

/// A text comes before another exactly where the two agree up to some place, and there the first one
/// ends and the other goes on, or has the smaller character.
pub proof fn law_texts_are_ordered_by_their_first_difference(a: Seq<char>, b: Seq<char>)
    ensures
        precedes(a, b) <==> exists|i: int| #[trigger] differ_first_at(a, b, i),
    decreases a.len(),
{
    if a.len() > 0 && b.len() > 0 {
        let (x, y) = (a.drop_first(), b.drop_first());
        law_texts_are_ordered_by_their_first_difference(x, y);
        if exists|i: int| #[trigger] differ_first_at(a, b, i) {
            let i = choose|i: int| #[trigger] differ_first_at(a, b, i);
            if a[0] == b[0] {
                assert(i > 0);
                assert forall|k: int| 0 <= k < i - 1 implies x[k] == y[k] by {
                    assert(a.take(i)[k + 1] == b.take(i)[k + 1]);
                }
                assert(x.take(i - 1) =~= y.take(i - 1));
                assert(differ_first_at(x, y, i - 1));
            } else {
                assert(i == 0) by {
                    if i > 0 {
                        assert(a.take(i)[0] == b.take(i)[0]);
                    }
                }
            }
        }
        if precedes(a, b) {
            if a[0] == b[0] {
                let i = choose|i: int| #[trigger] differ_first_at(x, y, i);
                assert forall|k: int| 0 <= k < i + 1 implies a[k] == b[k] by {
                    if k > 0 {
                        assert(x.take(i)[k - 1] == y.take(i)[k - 1]);
                    }
                }
                assert(a.take(i + 1) =~= b.take(i + 1));
                assert(differ_first_at(a, b, i + 1));
            } else {
                assert(a.take(0) =~= b.take(0));
                assert(differ_first_at(a, b, 0));
            }
        }
    } else if b.len() > 0 {
        assert(a.take(0) =~= b.take(0));
        assert(differ_first_at(a, b, 0));
    }
}

/// Whether the first text ends at a place or has the smaller character there, while the two agree up to
/// it.
pub open spec fn differ_first_at(a: Seq<char>, b: Seq<char>, i: int) -> bool {
    &&& 0 <= i <= a.len()
    &&& i < b.len()
    &&& a.take(i) == b.take(i)
    &&& i < a.len() ==> (a[i] as int) < (b[i] as int)
}

/// Whether a text stands somewhere in another.
pub open spec fn holds(s: Seq<char>, pattern: Seq<char>) -> bool {
    exists|i: int| #[trigger] stands_at(s, i, pattern)
}

/// What stands in a text stands in it whatever follows, and so does what follows.
pub proof fn lemma_holds_on(s: Seq<char>, more: Seq<char>)
    ensures
        holds(s + more, more),
        forall|pattern: Seq<char>| #[trigger] holds(s, pattern) ==> holds(s + more, pattern),
{
    let whole = s + more;
    let n = s.len() as int;
    assert(whole.subrange(n, n + more.len()) =~= more);
    assert(stands_at(whole, n, more));
    assert forall|pattern: Seq<char>| #[trigger] holds(s, pattern) implies holds(whole, pattern) by {
        let i = choose|i: int| #[trigger] stands_at(s, i, pattern);
        assert(whole.subrange(i, i + pattern.len()) =~= s.subrange(i, i + pattern.len()));
        assert(stands_at(whole, i, pattern));
    }
}

/// Whether a text ends with another.
pub open spec fn ends_with(s: Seq<char>, end: Seq<char>) -> bool {
    s.len() >= end.len() && s.skip(s.len() - end.len()) == end
}

/// A text starts with another exactly if it is that text and something behind it, and ends with one
/// exactly if it is something and that text.
pub proof fn law_texts_start_and_end_with_their_parts(s: Seq<char>, part: Seq<char>)
    ensures
        starts_with(s, part) <==> exists|rest: Seq<char>| s == #[trigger] (part + rest),
        ends_with(s, part) <==> exists|front: Seq<char>| s == #[trigger] (front + part),
{
    if starts_with(s, part) {
        assert(s =~= part + s.skip(part.len() as int));
    }
    if exists|rest: Seq<char>| s == #[trigger] (part + rest) {
        let rest = choose|rest: Seq<char>| s == #[trigger] (part + rest);
        assert(s.take(part.len() as int) =~= part);
    }
    if ends_with(s, part) {
        assert(s =~= s.take(s.len() - part.len()) + part);
    }
    if exists|front: Seq<char>| s == #[trigger] (front + part) {
        let front = choose|front: Seq<char>| s == #[trigger] (front + part);
        assert(s.skip(s.len() - part.len()) =~= part);
    }
}

/// Two texts are the same but for their case exactly if each character is, and only letters have one.
pub proof fn law_texts_are_the_same_but_for_their_case(a: Seq<char>, b: Seq<char>)
    ensures
        same_ignoring_case(a, b) <==> a.len() == b.len() && forall|i: int|
            0 <= i < a.len() ==> {
                ||| #[trigger] a[i] == b[i]
                ||| 'A' <= a[i] <= 'Z' && b[i] as int == a[i] as int + 32
                ||| 'A' <= b[i] <= 'Z' && a[i] as int == b[i] as int + 32
            },
{
    let (x, y) = (lowered(a), lowered(b));
    if x == y {
        assert forall|i: int| 0 <= i < a.len() implies {
            ||| #[trigger] a[i] == b[i]
            ||| 'A' <= a[i] <= 'Z' && b[i] as int == a[i] as int + 32
            ||| 'A' <= b[i] <= 'Z' && a[i] as int == b[i] as int + 32
        } by {
            assert(x[i] == y[i]);
        }
    }
    if a.len() == b.len() && forall|i: int|
        0 <= i < a.len() ==> {
            ||| #[trigger] a[i] == b[i]
            ||| 'A' <= a[i] <= 'Z' && b[i] as int == a[i] as int + 32
            ||| 'A' <= b[i] <= 'Z' && a[i] as int == b[i] as int + 32
        } {
        assert forall|i: int| 0 <= i < x.len() implies x[i] == y[i] by {
            assert(a[i] == b[i] || 'A' <= a[i] <= 'Z' && b[i] as int == a[i] as int + 32 || 'A' <= b[i]
                <= 'Z' && a[i] as int == b[i] as int + 32);
        }
        assert(x =~= y);
    }
}

/// A text in which a pattern does not stand stays as it is. Where the pattern stands first, its
/// replacement does so afterwards, and what is behind it is treated likewise.
pub proof fn law_patterns_are_replaced_where_they_stand(
    s: Seq<char>,
    pattern: Seq<char>,
    replacement: Seq<char>,
)
    requires
        pattern.len() > 0,
    ensures
        !holds(s, pattern) ==> replaced(s, pattern, replacement) == s,
        replaced(pattern + s, pattern, replacement) == replacement + replaced(s, pattern, replacement),
{
    if !holds(s, pattern) {
        lemma_nothing_replaced(s, 0, pattern, replacement);
        assert(s.skip(0) =~= s);
    }
    let whole = pattern + s;
    let n = pattern.len() as int;
    assert(whole.subrange(0, n) =~= pattern);
    assert(whole.skip(n) =~= s);
    lemma_replaced_behind(whole, n, 0, pattern, replacement);
}

/// Behind a place where nothing more is replaced, the text stays.
proof fn lemma_nothing_replaced(s: Seq<char>, i: int, pattern: Seq<char>, replacement: Seq<char>)
    requires
        0 <= i <= s.len(),
        pattern.len() > 0,
        !holds(s, pattern),
    ensures
        replaced_from(s, i, pattern, replacement) == s.skip(i),
    decreases s.len() - i,
{
    if i < s.len() {
        lemma_nothing_replaced(s, i + 1, pattern, replacement);
        assert(!stands_at(s, i, pattern));
        assert(seq![s[i]] + s.skip(i + 1) =~= s.skip(i));
    } else {
        assert(s.skip(i) =~= Seq::<char>::empty());
    }
}

/// What is replaced behind a place is what is replaced in the text behind it.
proof fn lemma_replaced_behind(
    s: Seq<char>,
    at: int,
    i: int,
    pattern: Seq<char>,
    replacement: Seq<char>,
)
    requires
        0 <= at,
        0 <= i,
        at + i <= s.len(),
        pattern.len() > 0,
    ensures
        replaced_from(s, at + i, pattern, replacement) == replaced_from(
            s.skip(at),
            i,
            pattern,
            replacement,
        ),
    decreases s.len() - at - i,
{
    let rest = s.skip(at);
    if at + i < s.len() {
        if at + i + pattern.len() <= s.len() {
            assert(s.subrange(at + i, at + i + pattern.len()) =~= rest.subrange(
                i,
                i + pattern.len(),
            ));
        }
        if stands_at(s, at + i, pattern) {
            lemma_replaced_behind(s, at, i + pattern.len(), pattern, replacement);
        } else {
            lemma_replaced_behind(s, at, i + 1, pattern, replacement);
        }
    }
}

/// A text says nothing exactly if all of it is white space.
pub proof fn law_blank_texts_are_white_space(s: Seq<char>)
    ensures
        is_blank(s) <==> forall|i: int| 0 <= i < s.len() ==> is_whitespace(#[trigger] s[i]),
{
    let from = law_trimming_takes_white_space_off(s);
    if trimmed(s).len() > 0 {
        assert(trimmed(s)[0] == s[from]);
    }
}

} // verus!
