//! Character-sequence helpers shared by the parsers and renderers.

use vstd::prelude::*;

verus! {

/// `String::push` appends one character to the end of the string.
pub assume_specification[ String::push ](s: &mut String, c: char)
    ensures
        final(s)@ == old(s)@.push(c),
;

/// The texts of a list of strings.
pub open spec fn texts_of(strings: Seq<String>) -> Seq<Seq<char>> {
    Seq::new(strings.len(), |i: int| strings[i]@)
}

/// The characters of `s`, in order.
pub fn chars_of(s: &str) -> (v: Vec<char>)
    ensures
        v@ == s@,
{
    let mut v: Vec<char> = Vec::new();
    for c in it: s.chars()
        invariant
            v@ == s@.take(it.index() as int),
            it.seq() == s@,
    {
        v.push(c);
    }
    v
}

/// The string made of `v[from..to]`.
pub fn text_of(v: &Vec<char>, from: usize, to: usize) -> (s: String)
    requires
        from <= to <= v.len(),
    ensures
        s@ == v@.subrange(from as int, to as int),
{
    let mut s = String::new();
    let mut i: usize = from;
    while i < to
        invariant
            from <= i <= to <= v.len(),
            s@ == v@.subrange(from as int, i as int),
        decreases to - i,
    {
        s.push(v[i]);
        i += 1;
    }
    s
}

/// The index of the first `needle` in `s[from..]`, as an offset into `s`,
/// or `s.len()` when there is none.
pub open spec fn next_index<A>(s: Seq<A>, from: int, needle: A) -> int
    recommends
        0 <= from <= s.len(),
{
    match s.subrange(from, s.len() as int).index_of_first(needle) {
        Some(k) => from + k,
        None => s.len() as int,
    }
}

/// `next_index` is the least index at or after `from` that holds `needle`.
pub proof fn lemma_next_index<A>(s: Seq<A>, from: int, needle: A)
    requires
        0 <= from <= s.len(),
    ensures
        from <= next_index(s, from, needle) <= s.len(),
        forall|j: int| from <= j < next_index(s, from, needle) ==> s[j] != needle,
        next_index(s, from, needle) < s.len() ==> s[next_index(s, from, needle)] == needle,
        next_index(s, from, needle) == s.len() <==> !s.subrange(from, s.len() as int).contains(
            needle,
        ),
{
    let tail = s.subrange(from, s.len() as int);
    tail.index_of_first_ensures(needle);
    match tail.index_of_first(needle) {
        Some(k) => {
            assert forall|j: int| from <= j < from + k implies s[j] != needle by {
                assert(tail[j - from] == s[j]);
            }
        },
        None => {
            assert forall|j: int| from <= j < s.len() implies s[j] != needle by {
                assert(tail[j - from] == s[j]);
            }
        },
    }
}

/// An index that holds `needle` with none before it is `next_index`.
pub proof fn lemma_next_index_unique<A>(s: Seq<A>, from: int, needle: A, at: int)
    requires
        0 <= from <= at <= s.len(),
        forall|j: int| from <= j < at ==> s[j] != needle,
        at < s.len() ==> s[at] == needle,
    ensures
        next_index(s, from, needle) == at,
{
    lemma_next_index(s, from, needle);
    let tail = s.subrange(from, s.len() as int);
    if at == s.len() {
        assert forall|k: int| 0 <= k < tail.len() implies tail[k] != needle by {
            assert(tail[k] == s[from + k]);
        }
    } else {
        assert(tail[at - from] == needle);
    }
}

/// The first position of `needle` at or after `from`, `v.len()` if none.
pub fn find_from(v: &Vec<char>, from: usize, needle: char) -> (at: usize)
    requires
        from <= v.len(),
    ensures
        at == next_index(v@, from as int, needle),
        from <= at <= v.len(),
{
    let mut i: usize = from;
    while i < v.len() && v[i] != needle
        invariant
            from <= i <= v.len(),
            forall|j: int| from <= j < i ==> v@[j] != needle,
        decreases v.len() - i,
    {
        i += 1;
    }
    proof {
        lemma_next_index_unique(v@, from as int, needle, i as int);
    }
    i
}

/// Whether two strings hold the same text.
pub fn same_text(a: &str, b: &str) -> (same: bool)
    ensures
        same == (a@ == b@),
{
    String::from_str(a) == String::from_str(b)
}

/// The decimal digit of a number below ten.
pub open spec fn digit_of(d: int) -> char
    recommends
        0 <= d < 10,
{
    if d == 0 {
        '0'
    } else if d == 1 {
        '1'
    } else if d == 2 {
        '2'
    } else if d == 3 {
        '3'
    } else if d == 4 {
        '4'
    } else if d == 5 {
        '5'
    } else if d == 6 {
        '6'
    } else if d == 7 {
        '7'
    } else if d == 8 {
        '8'
    } else {
        '9'
    }
}

/// A natural number in decimal, without leading zeros.
pub open spec fn decimal_of(n: nat) -> Seq<char>
    decreases n,
{
    if n < 10 {
        seq![digit_of(n as int)]
    } else {
        decimal_of(n / 10).push(digit_of((n % 10) as int))
    }
}

/// An integer in decimal, with a minus sign if it is negative.
pub open spec fn signed_decimal_of(n: int) -> Seq<char> {
    if n < 0 {
        seq!['-'] + decimal_of((-n) as nat)
    } else {
        decimal_of(n as nat)
    }
}

/// The decimal digit of a number below ten.
pub fn digit(d: u64) -> (c: char)
    requires
        d < 10,
    ensures
        c == digit_of(d as int),
{
    if d == 0 {
        '0'
    } else if d == 1 {
        '1'
    } else if d == 2 {
        '2'
    } else if d == 3 {
        '3'
    } else if d == 4 {
        '4'
    } else if d == 5 {
        '5'
    } else if d == 6 {
        '6'
    } else if d == 7 {
        '7'
    } else if d == 8 {
        '8'
    } else {
        '9'
    }
}

/// `n` in decimal.
pub fn decimal(n: u64) -> (text: String)
    ensures
        text@ == decimal_of(n as nat),
{
    let mut digits: Vec<char> = Vec::new();
    let mut rest: u64 = n;
    while rest >= 10
        invariant
            decimal_of(n as nat) == decimal_of(rest as nat) + digits@.reverse(),
        decreases rest,
    {
        let ghost before = digits@;
        digits.push(digit(rest % 10));
        proof {
            assert(digits@.reverse() =~= seq![digit_of((rest % 10) as int)] + before.reverse());
            assert(decimal_of(rest as nat) =~= decimal_of((rest / 10) as nat) + seq![
                digit_of((rest % 10) as int),
            ]);
        }
        rest = rest / 10;
    }
    let mut text = String::new();
    text.push(digit(rest));
    let mut i: usize = digits.len();
    while i > 0
        invariant
            i <= digits@.len(),
            rest < 10,
            decimal_of(n as nat) == decimal_of(rest as nat) + digits@.reverse(),
            text@ == decimal_of(rest as nat) + digits@.reverse().take(digits@.len() - i),
        decreases i,
    {
        i -= 1;
        text.push(digits[i]);
        assert(digits@.reverse().take(digits@.len() - i) =~= digits@.reverse().take(
            digits@.len() - i - 1,
        ).push(digits@[i as int]));
    }
    assert(digits@.reverse().take(digits@.len() as int) =~= digits@.reverse());
    text
}

/// `n` in decimal, with a minus sign if it is negative.
pub fn signed_decimal(n: i64) -> (text: String)
    ensures
        text@ == signed_decimal_of(n as int),
{
    if n < 0 {
        let magnitude: u64 = if n == i64::MIN {
            9223372036854775808u64
        } else {
            (-n) as u64
        };
        let mut text = String::new();
        text.push('-');
        let digits = decimal(magnitude);
        text.append(digits.as_str());
        text
    } else {
        decimal(n as u64)
    }
}

/// Whether `c` is white space: one of the characters with the Unicode
/// property White_Space. These are the controls from tab to carriage
/// return, the space, the next-line control, the no-break space, the
/// ogham space mark, the spaces from en quad to hair space, the line
/// and paragraph separators, the narrow no-break space, the medium
/// mathematical space and the ideographic space.
pub open spec fn whitespace(c: char) -> bool {
    let v = c as u32;
    ||| 0x09 <= v <= 0x0D
    ||| v == 0x20
    ||| v == 0x85
    ||| v == 0xA0
    ||| v == 0x1680
    ||| 0x2000 <= v <= 0x200A
    ||| v == 0x2028
    ||| v == 0x2029
    ||| v == 0x202F
    ||| v == 0x205F
    ||| v == 0x3000
}

/// Whether `c` is white space.
pub fn is_white_space(c: char) -> (answer: bool)
    ensures
        answer == whitespace(c),
{
    let v: u32 = c as u32;
    (0x09 <= v && v <= 0x0D) || v == 0x20 || v == 0x85 || v == 0xA0 || v == 0x1680 || (0x2000 <= v
        && v <= 0x200A) || v == 0x2028 || v == 0x2029 || v == 0x202F || v == 0x205F || v == 0x3000
}

/// The lower-case form of `text`: what `str::to_lowercase` returns.
pub uninterp spec fn lowercase_of(text: Seq<char>) -> Seq<char>;

/// `str::to_lowercase` gives the lower-case equivalent of a string as a
/// new string.
pub assume_specification[ str::to_lowercase ](text: &str) -> (lower: String)
    ensures
        lower@ == lowercase_of(text@),
;

/// Whether `text` holds nothing but white space.
pub open spec fn blank(text: Seq<char>) -> bool {
    forall|i: int| 0 <= i < text.len() ==> whitespace(#[trigger] text[i])
}

/// Whether `needle` occurs in `hay` as a run of adjacent characters.
pub open spec fn occurs_in(needle: Seq<char>, hay: Seq<char>) -> bool {
    exists|at: int| occurs_at(needle, hay, at)
}

/// Whether `needle` occurs in `hay` at index `at`.
pub open spec fn occurs_at(needle: Seq<char>, hay: Seq<char>, at: int) -> bool {
    0 <= at && at + needle.len() <= hay.len() && hay.subrange(at, at + needle.len()) == needle
}

/// Whether `text` holds nothing but white space.
pub fn is_blank(text: &str) -> (answer: bool)
    ensures
        answer == blank(text@),
{
    let chars = chars_of(text);
    let mut i: usize = 0;
    while i < chars.len()
        invariant
            i <= chars@.len(),
            chars@ == text@,
            forall|j: int| 0 <= j < i ==> whitespace(#[trigger] chars@[j]),
        decreases chars@.len() - i,
    {
        if !is_white_space(chars[i]) {
            return false;
        }
        i += 1;
    }
    true
}

/// Whether `needle` occurs in `hay`.
pub fn contains_text(hay: &Vec<char>, needle: &Vec<char>) -> (found: bool)
    ensures
        found == occurs_in(needle@, hay@),
{
    if needle.len() > hay.len() {
        assert forall|at: int| !occurs_at(needle@, hay@, at) by {}
        return false;
    }
    let last: usize = hay.len() - needle.len();
    let mut at: usize = 0;
    loop
        invariant
            at <= last,
            last + needle@.len() == hay@.len(),
            hay@.len() <= usize::MAX,
            forall|k: int| 0 <= k < at ==> !occurs_at(needle@, hay@, k),
        decreases last - at,
    {
        let mut j: usize = 0;
        while j < needle.len() && hay[at + j] == needle[j]
            invariant
                at <= last,
                last + needle@.len() == hay@.len(),
                hay@.len() <= usize::MAX,
                j <= needle@.len(),
                forall|k: int| 0 <= k < j ==> hay@[at + k] == needle@[k],
            decreases needle@.len() - j,
        {
            j += 1;
        }
        if j == needle.len() {
            assert(hay@.subrange(at as int, at + needle@.len()) =~= needle@);
            assert(occurs_at(needle@, hay@, at as int));
            return true;
        }
        assert(!occurs_at(needle@, hay@, at as int)) by {
            if occurs_at(needle@, hay@, at as int) {
                assert(hay@.subrange(at as int, at + needle@.len())[j as int] == needle@[j as int]);
            }
        }
        if at == last {
            assert forall|k: int| !occurs_at(needle@, hay@, k) by {}
            return false;
        }
        at += 1;
    }
}

} // verus!
