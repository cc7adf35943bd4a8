//! Texts as sequences of characters: joining, searching, splitting, trimming,
//! ordering, and their size in bytes.

use vstd::prelude::*;
use vstd::string::*;
use vstd::utf8::*;

verus! {

/// The characters of `text`, in order.
pub fn chars_of(text: &str) -> (chars: Vec<char>)
    ensures
        chars@ == text@,
{
    let mut chars: Vec<char> = Vec::new();
    for c in it: text.chars()
        invariant
            chars@ == text@.take(it.index() as int),
            it.seq() == text@,
    {
        chars.push(c);
        assert(text@.take(it.index() + 1) =~= text@.take(it.index() as int).push(c));
    }
    assert(text@.take(text@.len() as int) =~= text@);
    chars
}

/// Whether two texts hold the same characters.
pub fn same_text(a: &str, b: &str) -> (same: bool)
    ensures
        same == (a@ == b@),
{
    let a: String = a.to_owned();
    let b: String = b.to_owned();
    a == b
}

/// Whether an optional text is present and equal to `b`.
pub fn same_optional_text(a: &Option<String>, b: &str) -> (same: bool)
    ensures
        same == (a.deep_view() == Some(b@)),
{
    match a {
        Some(a) => same_text(a.as_str(), b),
        None => false,
    }
}

/// `a` followed by `b`.
pub fn concat2(a: &str, b: &str) -> (joined: String)
    ensures
        joined@ == a@ + b@,
{
    let mut joined: String = a.to_owned();
    joined.append(b);
    joined
}

/// Three texts, one after the other.
pub fn concat3(a: &str, b: &str, c: &str) -> (joined: String)
    ensures
        joined@ == a@ + b@ + c@,
{
    let mut joined: String = concat2(a, b);
    joined.append(c);
    joined
}

/// Four texts, one after the other.
pub fn concat4(a: &str, b: &str, c: &str, d: &str) -> (joined: String)
    ensures
        joined@ == a@ + b@ + c@ + d@,
{
    let mut joined: String = concat3(a, b, c);
    joined.append(d);
    joined
}

/// Five texts, one after the other.
pub fn concat5(a: &str, b: &str, c: &str, d: &str, e: &str) -> (joined: String)
    ensures
        joined@ == a@ + b@ + c@ + d@ + e@,
{
    let mut joined: String = concat4(a, b, c, d);
    joined.append(e);
    joined
}

/// Six texts, one after the other.
pub fn concat6(a: &str, b: &str, c: &str, d: &str, e: &str, f: &str) -> (joined: String)
    ensures
        joined@ == a@ + b@ + c@ + d@ + e@ + f@,
{
    let mut joined: String = concat5(a, b, c, d, e);
    joined.append(f);
    joined
}

/// Appends a text to a list.
pub fn push_text(list: &mut Vec<String>, text: String)
    ensures
        final(list).deep_view() == old(list).deep_view().push(text@),
{
    let ghost before = list.deep_view();
    list.push(text);
    assert(list.deep_view() =~= before.push(text@));
}

/// One text as a list.
pub fn list1(a: &str) -> (list: Vec<String>)
    ensures
        list.deep_view() == seq![a@],
{
    let mut list: Vec<String> = Vec::new();
    push_text(&mut list, a.to_owned());
    assert(list.deep_view() =~= seq![a@]);
    list
}

/// Two texts as a list.
pub fn list2(a: &str, b: &str) -> (list: Vec<String>)
    ensures
        list.deep_view() == seq![a@, b@],
{
    let mut list: Vec<String> = list1(a);
    push_text(&mut list, b.to_owned());
    assert(list.deep_view() =~= seq![a@, b@]);
    list
}

/// Three texts as a list.
pub fn list3(a: &str, b: &str, c: &str) -> (list: Vec<String>)
    ensures
        list.deep_view() == seq![a@, b@, c@],
{
    let mut list: Vec<String> = list2(a, b);
    push_text(&mut list, c.to_owned());
    assert(list.deep_view() =~= seq![a@, b@, c@]);
    list
}

/// Four texts as a list.
pub fn list4(a: &str, b: &str, c: &str, d: &str) -> (list: Vec<String>)
    ensures
        list.deep_view() == seq![a@, b@, c@, d@],
{
    let mut list: Vec<String> = list3(a, b, c);
    push_text(&mut list, d.to_owned());
    assert(list.deep_view() =~= seq![a@, b@, c@, d@]);
    list
}

/// Five texts as a list.
pub fn list5(a: &str, b: &str, c: &str, d: &str, e: &str) -> (list: Vec<String>)
    ensures
        list.deep_view() == seq![a@, b@, c@, d@, e@],
{
    let mut list: Vec<String> = list4(a, b, c, d);
    push_text(&mut list, e.to_owned());
    assert(list.deep_view() =~= seq![a@, b@, c@, d@, e@]);
    list
}

/// Six texts as a list.
pub fn list6(a: &str, b: &str, c: &str, d: &str, e: &str, f: &str) -> (list: Vec<String>)
    ensures
        list.deep_view() == seq![a@, b@, c@, d@, e@, f@],
{
    let mut list: Vec<String> = list5(a, b, c, d, e);
    push_text(&mut list, f.to_owned());
    assert(list.deep_view() =~= seq![a@, b@, c@, d@, e@, f@]);
    list
}

/// A copy of a list of texts.
pub fn copy_list(list: &Vec<String>) -> (copy: Vec<String>)
    ensures
        copy.deep_view() == list.deep_view(),
{
    let mut copy: Vec<String> = Vec::new();
    let mut i: usize = 0;
    while i < list.len()
        invariant
            i <= list.len(),
            copy.deep_view() =~= list.deep_view().take(i as int),
        decreases list.len() - i,
    {
        push_text(&mut copy, list[i].clone());
        assert(list.deep_view().take(i + 1) =~= list.deep_view().take(i as int).push(list[i as int]@));
        i += 1;
    }
    assert(list.deep_view().take(list.len() as int) =~= list.deep_view());
    copy
}

/// Whether the character `c` occurs in `text`.
pub fn contains_char(text: &str, c: char) -> (found: bool)
    ensures
        found == text@.contains(c),
{
    let chars: Vec<char> = chars_of(text);
    let mut i: usize = 0;
    while i < chars.len()
        invariant
            i <= chars.len(),
            chars@ == text@,
            forall|j: int| 0 <= j < i ==> chars@[j] != c,
        decreases chars.len() - i,
    {
        if chars[i] == c {
            assert(text@[i as int] == c);
            return true;
        }
        i += 1;
    }
    false
}

/// `text` ends with `suffix`.
pub open spec fn ends_with(text: Seq<char>, suffix: Seq<char>) -> bool {
    suffix.len() <= text.len() && text.skip(text.len() - suffix.len()) == suffix
}

/// `text` without `suffix` at its end, where it has one.
pub open spec fn without_suffix(text: Seq<char>, suffix: Seq<char>) -> Option<Seq<char>> {
    if ends_with(text, suffix) {
        Some(text.take(text.len() - suffix.len()))
    } else {
        None
    }
}

/// Removes `suffix` from the end of `text`, where it stands there.
pub fn strip_suffix(text: &str, suffix: &str) -> (rest: Option<String>)
    ensures
        rest.deep_view() == without_suffix(text@, suffix@),
{
    let n: usize = text.unicode_len();
    let k: usize = suffix.unicode_len();
    if k > n {
        return None;
    }
    let tail: &str = text.substring_char(n - k, n);
    assert(tail@ =~= text@.skip(text@.len() - suffix@.len()));
    if same_text(tail, suffix) {
        let head: String = text.substring_char(0, n - k).to_owned();
        assert(head@ =~= text@.take(text@.len() - suffix@.len()));
        Some(head)
    } else {
        None
    }
}

/// The pieces of `text` between the occurrences of `sep`; a text without `sep` is one piece.
pub open spec fn split(text: Seq<char>, sep: char) -> Seq<Seq<char>>
    decreases text.len(),
{
    if text.len() == 0 {
        seq![Seq::<char>::empty()]
    } else {
        let before = split(text.drop_last(), sep);
        if text.last() == sep {
            before.push(Seq::<char>::empty())
        } else {
            before.drop_last().push(before.last().push(text.last()))
        }
    }
}

/// A split text has at least one piece.
pub proof fn lemma_split_nonempty(text: Seq<char>, sep: char)
    ensures
        split(text, sep).len() > 0,
    decreases text.len(),
{
    if text.len() > 0 {
        lemma_split_nonempty(text.drop_last(), sep);
    }
}

/// Cuts `text` at each `sep`.
pub fn split_on(text: &str, sep: char) -> (pieces: Vec<String>)
    ensures
        pieces.deep_view() == split(text@, sep),
{
    let chars: Vec<char> = chars_of(text);
    let mut pieces: Vec<String> = Vec::new();
    let mut start: usize = 0;
    let mut i: usize = 0;
    assert(text@.take(0) =~= Seq::<char>::empty());
    assert(split(text@.take(0), sep) =~= pieces.deep_view().push(text@.subrange(0, 0)));
    while i < chars.len()
        invariant
            start <= i <= chars.len(),
            chars@ == text@,
            split(text@.take(i as int), sep) =~= pieces.deep_view().push(
                text@.subrange(start as int, i as int),
            ),
        decreases chars.len() - i,
    {
        proof {
            let next = text@.take(i + 1);
            assert(next.drop_last() =~= text@.take(i as int));
            assert(next.last() == text@[i as int]);
            let before = split(text@.take(i as int), sep);
            assert(before.drop_last() =~= pieces.deep_view());
            assert(before.last() == text@.subrange(start as int, i as int));
            assert(text@.subrange(start as int, i + 1) =~= text@.subrange(
                start as int,
                i as int,
            ).push(text@[i as int]));
        }
        if chars[i] == sep {
            let ghost done = pieces.deep_view();
            pieces.push(text.substring_char(start, i).to_owned());
            assert(pieces.deep_view() =~= done.push(text@.subrange(start as int, i as int)));
            assert(text@.subrange(i + 1, i + 1) =~= Seq::<char>::empty());
            start = i + 1;
        }
        i += 1;
    }
    let ghost done = pieces.deep_view();
    pieces.push(text.substring_char(start, i).to_owned());
    assert(pieces.deep_view() =~= done.push(text@.subrange(start as int, i as int)));
    assert(text@.take(text@.len() as int) =~= text@);
    pieces
}

/// The characters of the Unicode property White_Space.
pub open spec fn is_white_space(c: char) -> bool {
    let n = c as u32;
    ||| 0x9 <= n <= 0xd
    ||| n == 0x20
    ||| n == 0x85
    ||| n == 0xa0
    ||| n == 0x1680
    ||| 0x2000 <= n <= 0x200a
    ||| n == 0x2028
    ||| n == 0x2029
    ||| n == 0x202f
    ||| n == 0x205f
    ||| n == 0x3000
}

fn white_space(c: char) -> (is: bool)
    ensures
        is == is_white_space(c),
{
    let n: u32 = c as u32;
    (0x9 <= n && n <= 0xd) || n == 0x20 || n == 0x85 || n == 0xa0 || n == 0x1680 || (0x2000 <= n
        && n <= 0x200a) || n == 0x2028 || n == 0x2029 || n == 0x202f || n == 0x205f || n == 0x3000
}

/// `text` without the white space at its start.
pub open spec fn trimmed_start(text: Seq<char>) -> Seq<char>
    decreases text.len(),
{
    if text.len() > 0 && is_white_space(text[0]) {
        trimmed_start(text.drop_first())
    } else {
        text
    }
}

/// `text` without the white space at its end.
pub open spec fn trimmed_end(text: Seq<char>) -> Seq<char>
    decreases text.len(),
{
    if text.len() > 0 && is_white_space(text.last()) {
        trimmed_end(text.drop_last())
    } else {
        text
    }
}

/// `text` without the white space at both ends.
pub open spec fn trimmed(text: Seq<char>) -> Seq<char> {
    trimmed_end(trimmed_start(text))
}

/// Removes the white space at both ends of `text`.
pub fn trim(text: &str) -> (rest: String)
    ensures
        rest@ == trimmed(text@),
{
    let chars: Vec<char> = chars_of(text);
    let mut start: usize = 0;
    assert(text@.skip(0) =~= text@);
    while start < chars.len() && white_space(chars[start])
        invariant
            start <= chars.len(),
            chars@ == text@,
            trimmed_start(text@) == trimmed_start(text@.skip(start as int)),
        decreases chars.len() - start,
    {
        assert(text@.skip(start as int).drop_first() =~= text@.skip(start + 1));
        start += 1;
    }
    let ghost body = text@.skip(start as int);
    assert(trimmed_start(text@) == body);
    let mut end: usize = chars.len();
    assert(text@.subrange(start as int, end as int) =~= body);
    while end > start && white_space(chars[end - 1])
        invariant
            start <= end <= chars.len(),
            chars@ == text@,
            trimmed_end(body) == trimmed_end(text@.subrange(start as int, end as int)),
        decreases end,
    {
        assert(text@.subrange(start as int, end as int).drop_last() =~= text@.subrange(
            start as int,
            end - 1,
        ));
        end -= 1;
    }
    text.substring_char(start, end).to_owned()
}

/// The decimal digits of `n`.
pub open spec fn decimal(n: nat) -> Seq<char>
    decreases n,
{
    if n < 10 {
        seq![digit(n)]
    } else {
        decimal(n / 10).push(digit(n % 10))
    }
}

/// The character of a number below ten.
pub open spec fn digit(n: nat) -> char {
    (('0' as u32) + n) as char
}

/// An integer in decimal, with a minus sign where it is negative.
pub open spec fn signed_decimal(n: int) -> Seq<char> {
    if n < 0 {
        seq!['-'] + decimal((-n) as nat)
    } else {
        decimal(n as nat)
    }
}

fn digit_text(n: u64) -> (text: &'static str)
    requires
        n < 10,
    ensures
        text@ == seq![digit(n as nat)],
{
    proof {
        reveal_strlit("0");
        reveal_strlit("1");
        reveal_strlit("2");
        reveal_strlit("3");
        reveal_strlit("4");
        reveal_strlit("5");
        reveal_strlit("6");
        reveal_strlit("7");
        reveal_strlit("8");
        reveal_strlit("9");
    }
    let text: &'static str = match n {
        0 => "0",
        1 => "1",
        2 => "2",
        3 => "3",
        4 => "4",
        5 => "5",
        6 => "6",
        7 => "7",
        8 => "8",
        _ => "9",
    };
    assert(text@ =~= seq![digit(n as nat)]);
    text
}

/// Writes `n` in decimal.
pub fn decimal_text(n: u64) -> (text: String)
    ensures
        text@ == decimal(n as nat),
    decreases n,
{
    if n < 10 {
        digit_text(n).to_owned()
    } else {
        let mut text: String = decimal_text(n / 10);
        text.append(digit_text(n % 10));
        assert(text@ =~= decimal((n / 10) as nat).push(digit((n % 10) as nat)));
        text
    }
}

/// Writes the signed number `n` in decimal.
pub fn signed_decimal_text(n: i32) -> (text: String)
    ensures
        text@ == signed_decimal(n as int),
{
    if n < 0 {
        let magnitude: u64 = (-(n as i64)) as u64;
        let digits: String = decimal_text(magnitude);
        proof {
            reveal_strlit("-");
            assert("-"@ =~= seq!['-']);
        }
        concat2("-", digits.as_str())
    } else {
        decimal_text(n as u64)
    }
}

/// The number of bytes that `text` takes in UTF-8.
pub open spec fn text_bytes(text: Seq<char>) -> nat {
    encode_utf8(text).len()
}

/// The number of bytes that one character takes in UTF-8.
pub open spec fn char_bytes(c: char) -> nat {
    encode_scalar(c as u32).len()
}

fn char_width(c: char) -> (width: usize)
    ensures
        width == char_bytes(c),
        1 <= width <= 4,
{
    let n: u32 = c as u32;
    proof {
        char_is_scalar(c);
    }
    if n <= 0x7f {
        1
    } else if n <= 0x7ff {
        2
    } else if n <= 0xffff {
        3
    } else {
        4
    }
}

/// The sizes of two texts add up to the size of the joined text.
pub proof fn lemma_text_bytes_concat(a: Seq<char>, b: Seq<char>)
    ensures
        text_bytes(a + b) == text_bytes(a) + text_bytes(b),
    decreases a.len(),
{
    if a.len() == 0 {
        assert(a + b =~= b);
    } else {
        assert((a + b).drop_first() =~= a.drop_first() + b);
        lemma_text_bytes_concat(a.drop_first(), b);
    }
}

/// One more character adds its own size.
pub proof fn lemma_text_bytes_push(a: Seq<char>, c: char)
    ensures
        text_bytes(a.push(c)) == text_bytes(a) + char_bytes(c),
        1 <= char_bytes(c) <= 4,
{
    char_is_scalar(c);
    assert(a.push(c) =~= a + seq![c]);
    lemma_text_bytes_concat(a, seq![c]);
    assert(seq![c].drop_first() =~= Seq::<char>::empty());
    assert(encode_utf8(seq![c]) =~= encode_scalar(c as u32)) by {
        reveal_with_fuel(encode_utf8, 2);
    }
}

/// The start of a text is no larger than the text.
pub proof fn lemma_text_bytes_take(text: Seq<char>, k: int)
    requires
        0 <= k <= text.len(),
    ensures
        text_bytes(text.take(k)) + text_bytes(text.skip(k)) == text_bytes(text),
{
    assert(text =~= text.take(k) + text.skip(k));
    lemma_text_bytes_concat(text.take(k), text.skip(k));
}

/// Whether `text` takes at most `max` bytes.
pub fn fits_bytes(text: &str, max: usize) -> (fits: bool)
    ensures
        fits == (text_bytes(text@) <= max),
{
    let chars: Vec<char> = chars_of(text);
    let mut used: usize = 0;
    let mut i: usize = 0;
    assert(text@.take(0) =~= Seq::<char>::empty());
    while i < chars.len()
        invariant
            i <= chars.len(),
            chars@ == text@,
            used == text_bytes(text@.take(i as int)),
            used <= max,
        decreases chars.len() - i,
    {
        let width: usize = char_width(chars[i]);
        proof {
            assert(text@.take(i + 1) =~= text@.take(i as int).push(chars@[i as int]));
            lemma_text_bytes_push(text@.take(i as int), chars@[i as int]);
            lemma_text_bytes_take(text@, i + 1);
        }
        if width > max - used {
            return false;
        }
        used += width;
        i += 1;
    }
    assert(text@.take(text@.len() as int) =~= text@);
    true
}

/// The largest number of characters, from the start of `text`, that fit into `budget` bytes.
pub open spec fn is_longest_prefix(text: Seq<char>, budget: nat, k: nat) -> bool {
    &&& k <= text.len()
    &&& text_bytes(text.take(k as int)) <= budget
    &&& k < text.len() ==> text_bytes(text.take(k as int + 1)) > budget
}

/// The largest number of characters, at the end of `text`, that fit into `budget` bytes.
pub open spec fn is_longest_suffix(text: Seq<char>, budget: nat, k: nat) -> bool {
    &&& k <= text.len()
    &&& text_bytes(text.skip(text.len() - k)) <= budget
    &&& k < text.len() ==> text_bytes(text.skip(text.len() - k - 1)) > budget
}

/// Counts the characters at the start of `text` that fit into `budget` bytes.
pub fn longest_prefix(text: &str, budget: usize) -> (k: usize)
    ensures
        is_longest_prefix(text@, budget as nat, k as nat),
{
    let chars: Vec<char> = chars_of(text);
    let mut used: usize = 0;
    let mut i: usize = 0;
    assert(text@.take(0) =~= Seq::<char>::empty());
    while i < chars.len()
        invariant
            i <= chars.len(),
            chars@ == text@,
            used == text_bytes(text@.take(i as int)),
            used <= budget,
        decreases chars.len() - i,
    {
        let width: usize = char_width(chars[i]);
        proof {
            assert(text@.take(i + 1) =~= text@.take(i as int).push(chars@[i as int]));
            lemma_text_bytes_push(text@.take(i as int), chars@[i as int]);
        }
        if width > budget - used {
            return i;
        }
        used += width;
        i += 1;
    }
    i
}

/// Counts the characters at the end of `text` that fit into `budget` bytes.
pub fn longest_suffix(text: &str, budget: usize) -> (k: usize)
    ensures
        is_longest_suffix(text@, budget as nat, k as nat),
{
    let chars: Vec<char> = chars_of(text);
    let n: usize = chars.len();
    let mut used: usize = 0;
    let mut k: usize = 0;
    assert(text@.skip(text@.len() as int) =~= Seq::<char>::empty());
    while k < n
        invariant
            k <= n,
            n == chars.len(),
            chars@ == text@,
            used == text_bytes(text@.skip(n - k)),
            used <= budget,
        decreases n - k,
    {
        let width: usize = char_width(chars[n - k - 1]);
        proof {
            let c = chars@[n - k - 1];
            assert(text@.skip(n - k - 1) =~= Seq::<char>::empty().push(c) + text@.skip(n - k));
            lemma_text_bytes_push(Seq::<char>::empty(), c);
            lemma_text_bytes_concat(Seq::<char>::empty().push(c), text@.skip(n - k));
        }
        if width > budget - used {
            return k;
        }
        used += width;
        k += 1;
    }
    k
}

/// The number of characters at the start of a text that fit into a number of bytes.
pub open spec fn fitting_prefix(text: Seq<char>, budget: nat) -> nat {
    choose|k: nat| is_longest_prefix(text, budget, k)
}

/// The number of characters at the end of a text that fit into a number of bytes.
pub open spec fn fitting_suffix(text: Seq<char>, budget: nat) -> nat {
    choose|k: nat| is_longest_suffix(text, budget, k)
}

/// There is only one largest number of characters that fit at the start.
pub proof fn lemma_longest_prefix_is_unique(text: Seq<char>, budget: nat, k: nat)
    requires
        is_longest_prefix(text, budget, k),
    ensures
        fitting_prefix(text, budget) == k,
{
    let other = fitting_prefix(text, budget);
    let (short, long) = if k < other {
        (k, other)
    } else {
        (other, k)
    };
    if short < long {
        assert(text.take(long as int).take(short as int + 1) =~= text.take(short as int + 1));
        lemma_text_bytes_take(text.take(long as int), short as int + 1);
    }
}

/// There is only one largest number of characters that fit at the end.
pub proof fn lemma_longest_suffix_is_unique(text: Seq<char>, budget: nat, k: nat)
    requires
        is_longest_suffix(text, budget, k),
    ensures
        fitting_suffix(text, budget) == k,
{
    let other = fitting_suffix(text, budget);
    let (short, long) = if k < other {
        (k, other)
    } else {
        (other, k)
    };
    if short < long {
        let tail = text.skip(text.len() - long);
        assert(tail.skip(long - short - 1) =~= text.skip(text.len() - short - 1));
        lemma_text_bytes_take(tail, long - short - 1);
    }
}

/// A text takes at least one byte for each of its characters, and at most four.
pub proof fn lemma_text_bytes_range(text: Seq<char>)
    ensures
        text.len() <= text_bytes(text) <= 4 * text.len(),
    decreases text.len(),
{
    if text.len() > 0 {
        lemma_text_bytes_range(text.drop_last());
        lemma_text_bytes_push(text.drop_last(), text.last());
        assert(text.drop_last().push(text.last()) =~= text);
    }
}

/// A number below ten to the power of `digits` is written with at most `digits` digits.
pub proof fn lemma_decimal_length(n: nat, digits: nat, limit: nat)
    requires
        digits >= 1,
        limit == vstd::arithmetic::power::pow(10, digits),
        n < limit,
    ensures
        1 <= decimal(n).len() <= digits,
    decreases digits,
{
    if n >= 10 {
        vstd::arithmetic::power::lemma_pow1(10);
        assert(digits > 1);
        let fewer = (digits - 1) as nat;
        vstd::arithmetic::power::lemma_pow_adds(10, 1, fewer);
        vstd::arithmetic::power::lemma_pow_positive(10, fewer);
        lemma_decimal_length(
            n / 10,
            fewer,
            vstd::arithmetic::power::pow(10, fewer) as nat,
        );
    }
}

/// Pieces with a separator between each two of them.
pub open spec fn interleaved(pieces: Seq<Seq<char>>, sep: char) -> Seq<char>
    decreases pieces.len(),
{
    if pieces.len() == 0 {
        Seq::empty()
    } else if pieces.len() == 1 {
        pieces[0]
    } else {
        interleaved(pieces.drop_last(), sep) + seq![sep] + pieces.last()
    }
}

/// Cutting a text loses nothing but the separators: its pieces hold none of them, and put together
/// again with separators between them they are the text.
pub proof fn lemma_pieces_make_up_the_text(text: Seq<char>, sep: char)
    ensures
        interleaved(split(text, sep), sep) == text,
        forall|i: int|
            0 <= i < split(text, sep).len() ==> !(#[trigger] split(text, sep)[i]).contains(sep),
    decreases text.len(),
{
    if text.len() == 0 {
        assert(text =~= Seq::<char>::empty());
    } else {
        let shorter = text.drop_last();
        lemma_pieces_make_up_the_text(shorter, sep);
        lemma_split_nonempty(shorter, sep);
        let before = split(shorter, sep);
        let pieces = split(text, sep);
        let c = text.last();
        assert(text =~= shorter.push(c));
        if c == sep {
            assert(pieces.drop_last() =~= before);
            assert(interleaved(pieces, sep) =~= text);
            assert forall|i: int| 0 <= i < pieces.len() implies !(#[trigger] pieces[i]).contains(
                sep,
            ) by {
                if i < before.len() {
                    assert(pieces[i] == before[i]);
                }
            }
        } else {
            assert(pieces.drop_last() =~= before.drop_last());
            assert(pieces.last() == before.last().push(c));
            assert(interleaved(pieces, sep) =~= interleaved(before, sep).push(c));
            assert forall|i: int| 0 <= i < pieces.len() implies !(#[trigger] pieces[i]).contains(
                sep,
            ) by {
                if i < before.len() - 1 {
                    assert(pieces[i] == before[i]);
                } else {
                    let last = before[before.len() - 1];
                    let grown = last.push(c);
                    if grown.contains(sep) {
                        let k = choose|k: int| 0 <= k < grown.len() && grown[k] == sep;
                        assert(last[k] == sep);
                    }
                }
            }
        }
    }
}

/// What is put in front of a suffix is what is left without it; and a text that does not end with
/// the suffix has nothing of the kind.
pub proof fn lemma_suffixes_come_off(text: Seq<char>, suffix: Seq<char>)
    ensures
        without_suffix(text + suffix, suffix) == Some(text),
        without_suffix(text, suffix) matches Some(rest) ==> rest + suffix == text,
        without_suffix(text, suffix) is None ==> forall|rest: Seq<char>|
            #[trigger] (rest + suffix) != text,
{
    let whole = text + suffix;
    assert(whole.skip(whole.len() - suffix.len()) =~= suffix);
    assert(whole.take(whole.len() - suffix.len()) =~= text);
    if let Some(rest) = without_suffix(text, suffix) {
        assert(rest + suffix =~= text);
    } else {
        assert forall|rest: Seq<char>| #[trigger] (rest + suffix) != text by {
            if rest + suffix == text {
                assert(text.skip(text.len() - suffix.len()) =~= suffix);
            }
        }
    }
}

/// Every character of a text is white space.
pub open spec fn is_blank(text: Seq<char>) -> bool {
    forall|i: int| 0 <= i < text.len() ==> is_white_space(#[trigger] text[i])
}

proof fn lemma_trimmed_start(text: Seq<char>) -> (cut: Seq<char>)
    ensures
        is_blank(cut),
        cut + trimmed_start(text) == text,
        trimmed_start(text).len() > 0 ==> !is_white_space(trimmed_start(text)[0]),
    decreases text.len(),
{
    if text.len() > 0 && is_white_space(text[0]) {
        let more = lemma_trimmed_start(text.drop_first());
        let cut = seq![text[0]] + more;
        assert(cut + trimmed_start(text) =~= seq![text[0]] + text.drop_first());
        assert(seq![text[0]] + text.drop_first() =~= text);
        cut
    } else {
        assert(Seq::<char>::empty() + text =~= text);
        Seq::empty()
    }
}

proof fn lemma_trimmed_end(text: Seq<char>) -> (cut: Seq<char>)
    ensures
        is_blank(cut),
        trimmed_end(text) + cut == text,
        trimmed_end(text).len() > 0 ==> !is_white_space(trimmed_end(text).last()),
    decreases text.len(),
{
    if text.len() > 0 && is_white_space(text.last()) {
        let more = lemma_trimmed_end(text.drop_last());
        let cut = more.push(text.last());
        assert(trimmed_end(text) + cut =~= text.drop_last().push(text.last()));
        assert(text.drop_last().push(text.last()) =~= text);
        cut
    } else {
        assert(text + Seq::<char>::empty() =~= text);
        Seq::empty()
    }
}

/// Trimming takes white space off both ends, nothing else, and all of it.
pub proof fn lemma_trimming_takes_off_the_blanks(text: Seq<char>)
    ensures
        exists|before: Seq<char>, after: Seq<char>|
            is_blank(before) && is_blank(after) && text == #[trigger] (before + trimmed(text)
                + after),
        trimmed(text).len() > 0 ==> !is_white_space(trimmed(text)[0]) && !is_white_space(
            trimmed(text).last(),
        ),
{
    let before = lemma_trimmed_start(text);
    let middle = trimmed_start(text);
    let after = lemma_trimmed_end(middle);
    assert(text =~= before + trimmed(text) + after);
    if trimmed(text).len() > 0 {
        assert(middle[0] == (trimmed(text) + after)[0]);
    }
}

/// A text between blanks, which does not begin or end with one itself, is what trimming leaves.
pub proof fn lemma_trimming_leaves_the_text(before: Seq<char>, text: Seq<char>, after: Seq<char>)
    requires
        is_blank(before),
        is_blank(after),
        text.len() > 0 ==> !is_white_space(text[0]) && !is_white_space(text.last()),
    ensures
        trimmed(before + text + after) == text,
    decreases before.len() + after.len(),
{
    let whole = before + text + after;
    if before.len() > 0 {
        assert(whole[0] == before[0]);
        assert(whole.drop_first() =~= before.drop_first() + text + after);
        assert(is_blank(before.drop_first()));
        lemma_trimming_leaves_the_text(before.drop_first(), text, after);
    } else if text.len() == 0 {
        assert(whole =~= after);
        if after.len() > 0 {
            assert(whole.drop_first() =~= Seq::<char>::empty() + text + after.drop_first());
            assert(is_blank(after.drop_first()));
            lemma_trimming_leaves_the_text(before, text, after.drop_first());
        } else {
            assert(whole =~= text);
        }
    } else {
        assert(whole[0] == text[0]);
        assert(whole =~= text + after);
        lemma_trimmed_end_of(text, after);
    }
}

proof fn lemma_trimmed_end_of(text: Seq<char>, after: Seq<char>)
    requires
        is_blank(after),
        text.len() > 0,
        !is_white_space(text.last()),
    ensures
        trimmed_end(text + after) == text,
    decreases after.len(),
{
    let whole = text + after;
    if after.len() > 0 {
        assert(whole.last() == after.last());
        assert(is_white_space(after[after.len() - 1]));
        assert(whole.drop_last() =~= text + after.drop_last());
        assert(is_blank(after.drop_last()));
        lemma_trimmed_end_of(text, after.drop_last());
    } else {
        assert(whole =~= text);
    }
}

/// The characters that count as white space are those that Unicode calls so.
pub proof fn lemma_white_space_is_that_of_unicode(c: char)
    ensures
        is_white_space(c) <==> seq![
            0x9u32, 0xa, 0xb, 0xc, 0xd, 0x20, 0x85, 0xa0, 0x1680, 0x2000, 0x2001, 0x2002, 0x2003,
            0x2004, 0x2005, 0x2006, 0x2007, 0x2008, 0x2009, 0x200a, 0x2028, 0x2029, 0x202f, 0x205f,
            0x3000,
        ].contains(c as u32),
{
    let points = seq![
        0x9u32, 0xa, 0xb, 0xc, 0xd, 0x20, 0x85, 0xa0, 0x1680, 0x2000, 0x2001, 0x2002, 0x2003,
        0x2004, 0x2005, 0x2006, 0x2007, 0x2008, 0x2009, 0x200a, 0x2028, 0x2029, 0x202f, 0x205f,
        0x3000,
    ];
    let n = c as u32;
    if is_white_space(c) {
        let i: int = if n <= 0xd {
            n - 0x9
        } else if n == 0x20 {
            5
        } else if n == 0x85 {
            6
        } else if n == 0xa0 {
            7
        } else if n == 0x1680 {
            8
        } else if n <= 0x200a {
            9 + (n - 0x2000)
        } else if n == 0x2028 {
            20
        } else if n == 0x2029 {
            21
        } else if n == 0x202f {
            22
        } else if n == 0x205f {
            23
        } else {
            24
        };
        assert(points[i] == n);
    }
}

/// The number that decimal digits stand for.
pub open spec fn number_of(digits: Seq<char>) -> int
    decreases digits.len(),
{
    if digits.len() == 0 {
        0
    } else {
        10 * number_of(digits.drop_last()) + (digits.last() as u32 - '0' as u32)
    }
}

/// A number that is written in decimal is read back: only digits are written, they stand for the
/// number, and none of them is a zero in front.
pub proof fn lemma_decimal_reads_back(n: nat)
    ensures
        number_of(decimal(n)) == n,
        decimal(n).len() > 0,
        forall|i: int| 0 <= i < decimal(n).len() ==> '0' <= #[trigger] decimal(n)[i] <= '9',
        n > 0 ==> decimal(n)[0] != '0',
        signed_decimal(n as int) == decimal(n),
        n > 0 ==> signed_decimal(-(n as int)) == seq!['-'] + decimal(n),
    decreases n,
{
    reveal_with_fuel(number_of, 2);
    if n < 10 {
        assert(decimal(n).drop_last() =~= Seq::<char>::empty());
    } else {
        lemma_decimal_reads_back(n / 10);
        let text = decimal(n);
        assert(text.drop_last() =~= decimal(n / 10));
        assert forall|i: int| 0 <= i < text.len() implies '0' <= #[trigger] text[i] <= '9' by {
            if i < text.len() - 1 {
                assert(text[i] == decimal(n / 10)[i]);
            }
        }
        assert(text[0] == decimal(n / 10)[0]);
    }
}

} // verus!
