//! Text primitives shared by the rest of the crate.
//!
//! Every string is modelled by its sequence of characters (`s@`). The
//! functions here are the only place where strings are taken apart, so the
//! rules for splitting, searching and rendering numbers are stated once.

use vstd::prelude::*;

verus! {

/// `String::push` appends exactly one character to the end of the string.
pub assume_specification[ std::string::String::push ](s: &mut std::string::String, c: char)
    ensures
        final(s)@ == old(s)@.push(c),
;

/// `String::pop` takes the last character off the string and returns it; on
/// an empty string it returns nothing and changes nothing.
pub assume_specification[ std::string::String::pop ](s: &mut std::string::String) -> (r: Option<
    char,
>)
    ensures
        old(s)@.len() == 0 ==> r.is_none() && final(s)@ == old(s)@,
        old(s)@.len() > 0 ==> r == Some(old(s)@.last()) && final(s)@ == old(s)@.drop_last(),
;

/// What `str::to_lowercase` returns for a text: its Unicode lowercase
/// equivalent. Beyond ASCII the mapping is fixed by the Unicode tables of
/// the standard library and is not spelled out here.
pub uninterp spec fn lower(s: Seq<char>) -> Seq<char>;

/// Whether every character of a text is an ASCII character.
pub open spec fn is_ascii(s: Seq<char>) -> bool {
    forall|i: int| 0 <= i < s.len() ==> (#[trigger] s[i] as u32) < 0x80
}

/// The lowercase form of an ASCII character: the letters `A` to `Z` become
/// `a` to `z`, and every other character stays.
pub open spec fn ascii_lower_char(c: char) -> char {
    if 'A' <= c && c <= 'Z' {
        ((c as u32) + 0x20) as char
    } else {
        c
    }
}

/// The uppercase form of an ASCII character: the letters `a` to `z` become
/// `A` to `Z`, and every other character stays.
pub open spec fn ascii_upper_char(c: char) -> char {
    if 'a' <= c && c <= 'z' {
        ((c as u32) - 0x20) as char
    } else {
        c
    }
}

/// A text with each character in its ASCII lowercase form.
pub open spec fn ascii_lower(s: Seq<char>) -> Seq<char> {
    s.map_values(|c: char| ascii_lower_char(c))
}

/// A text with each character in its ASCII uppercase form.
pub open spec fn ascii_upper(s: Seq<char>) -> Seq<char> {
    s.map_values(|c: char| ascii_upper_char(c))
}

/// Whether a character is white space: whether it has the Unicode property
/// `White_Space`, which `char::is_whitespace` tests.
pub open spec fn is_space(c: char) -> bool {
    let n = c as u32;
    (0x09 <= n && n <= 0x0d) || n == 0x20 || n == 0x85 || n == 0xa0 || n == 0x1680 || (0x2000 <= n
        && n <= 0x200a) || n == 0x2028 || n == 0x2029 || n == 0x202f || n == 0x205f || n == 0x3000
}

/// Calls `str::to_lowercase`. The result depends on the text alone, and the
/// contract gives it its name. Of a text of ASCII characters alone it says
/// more: there the letters `A` to `Z` become `a` to `z` and nothing else
/// changes.
#[verifier::external_body]
fn lowercase(s: &str) -> (r: String)
    ensures
        r@ == lower(s@),
        is_ascii(s@) ==> r@ == ascii_lower(s@),
{
    s.to_lowercase()
}

/// Whether a character is white space.
pub fn whitespace(c: char) -> (r: bool)
    ensures
        r == is_space(c),
{
    let n: u32 = c as u32;
    (0x09 <= n && n <= 0x0d) || n == 0x20 || n == 0x85 || n == 0xa0 || n == 0x1680 || (0x2000 <= n
        && n <= 0x200a) || n == 0x2028 || n == 0x2029 || n == 0x202f || n == 0x205f || n == 0x3000
}

/// The views of a sequence of strings.
pub open spec fn texts(v: Seq<String>) -> Seq<Seq<char>> {
    v.map_values(|s: String| s@)
}

/// The characters of `s`, in order.
pub fn chars_of(s: &str) -> (v: Vec<char>)
    ensures
        v@ == s@,
{
    let mut v: Vec<char> = Vec::new();
    for c in it: s.chars()
        invariant
            v@ == it.seq().take(it.index()),
            it.seq() == s@,
    {
        v.push(c);
    }
    v
}

/// The string made of the characters `v[from..to]`.
pub fn string_of(v: &Vec<char>, from: usize, to: usize) -> (s: String)
    requires
        from <= to <= v.len(),
    ensures
        s@ == v@.subrange(from as int, to as int),
{
    let mut s = String::new();
    let mut i: usize = from;
    while i < to
        invariant
            from <= i <= to <= v.len(),
            s@ == v@.subrange(from as int, i as int),
        decreases to - i,
    {
        s.push(v[i]);
        i += 1;
        assert(v@.subrange(from as int, i as int) == v@.subrange(from as int, i - 1).push(
            v@[i - 1],
        ));
    }
    s
}

/// Whether two texts are the same sequence of characters.
pub fn same_text(a: &str, b: &str) -> (r: bool)
    ensures
        r == (a@ == b@),
{
    a.to_owned() == b.to_owned()
}

/// `a` followed by `b`.
pub fn concat(a: &str, b: &str) -> (r: String)
    ensures
        r@ == a@ + b@,
{
    let mut r = a.to_owned();
    r.append(b);
    r
}

/// `needle` stands in `hay` at position `i`.
pub open spec fn occurs_at(needle: Seq<char>, hay: Seq<char>, i: int) -> bool {
    &&& 0 <= i
    &&& i + needle.len() <= hay.len()
    &&& hay.subrange(i, i + needle.len()) == needle
}

/// `needle` is a contiguous part of `hay`. The empty text is part of every
/// text.
pub open spec fn is_substring(needle: Seq<char>, hay: Seq<char>) -> bool {
    exists|i: int| occurs_at(needle, hay, i)
}

fn matches_at(hay: &Vec<char>, needle: &Vec<char>, at: usize) -> (r: bool)
    requires
        at + needle.len() <= hay.len(),
    ensures
        r == occurs_at(needle@, hay@, at as int),
{
    let mut k: usize = 0;
    while k < needle.len()
        invariant
            k <= needle.len(),
            at + needle.len() <= hay.len(),
            forall|j: int| 0 <= j < k ==> hay@[at + j] == needle@[j],
        decreases needle.len() - k,
    {
        if hay[at + k] != needle[k] {
            assert(hay@.subrange(at as int, at + needle.len())[k as int] != needle@[k as int]);
            return false;
        }
        k += 1;
    }
    assert(hay@.subrange(at as int, at + needle.len()) =~= needle@);
    true
}

/// Substring search on character vectors.
pub fn contains_chars(hay: &Vec<char>, needle: &Vec<char>) -> (r: bool)
    ensures
        r == is_substring(needle@, hay@),
{
    if needle.len() > hay.len() {
        return false;
    }
    if needle.len() == 0 {
        assert(hay@.subrange(0, 0) =~= needle@);
        assert(occurs_at(needle@, hay@, 0));
        return true;
    }
    let last: usize = hay.len() - needle.len();
    let mut i: usize = 0;
    while i <= last
        invariant
            i <= last + 1,
            last == hay.len() - needle.len(),
            0 < needle.len() <= hay.len(),
            forall|k: int| 0 <= k < i ==> !occurs_at(needle@, hay@, k),
        decreases last + 1 - i,
    {
        if matches_at(hay, needle, i) {
            return true;
        }
        i += 1;
    }
    false
}

/// Whether `needle` is a contiguous part of `hay`.
pub fn contains(hay: &str, needle: &str) -> (r: bool)
    ensures
        r == is_substring(needle@, hay@),
{
    let h = chars_of(hay);
    let n = chars_of(needle);
    contains_chars(&h, &n)
}


/// The parts of `s` between occurrences of `sep`: as many parts as there are
/// separators, plus one. The empty text has the single part `""`.
pub open spec fn split_seq(s: Seq<char>, sep: char) -> Seq<Seq<char>>
    decreases s.len(),
{
    if s.len() == 0 {
        seq![Seq::<char>::empty()]
    } else {
        let before = split_seq(s.drop_last(), sep);
        if s.last() == sep {
            before.push(Seq::<char>::empty())
        } else {
            before.drop_last().push(before.last().push(s.last()))
        }
    }
}

/// Splitting always yields at least one part.
pub proof fn lemma_split_nonempty(s: Seq<char>, sep: char)
    ensures
        split_seq(s, sep).len() >= 1,
    decreases s.len(),
{
    if s.len() > 0 {
        lemma_split_nonempty(s.drop_last(), sep);
    }
}

/// Splits `s` at every occurrence of `sep`.
pub fn split_on(s: &str, sep: char) -> (parts: Vec<String>)
    ensures
        texts(parts@) == split_seq(s@, sep),
        parts@.len() >= 1,
{
    let v = chars_of(s);
    let mut parts: Vec<String> = Vec::new();
    let mut start: usize = 0;
    let mut i: usize = 0;
    proof {
        assert(v@.take(0).len() == 0);
        assert(v@.subrange(0, 0) =~= Seq::<char>::empty());
        assert(texts(parts@).push(v@.subrange(0, 0)) =~= seq![Seq::<char>::empty()]);
    }
    while i < v.len()
        invariant
            start <= i <= v.len(),
            v@ == s@,
            texts(parts@).push(v@.subrange(start as int, i as int)) == split_seq(
                v@.take(i as int),
                sep,
            ),
        decreases v.len() - i,
    {
        let ghost before = split_seq(v@.take(i as int), sep);
        proof {
            assert(v@.take(i + 1).drop_last() == v@.take(i as int));
            assert(before.drop_last() == texts(parts@));
        }
        if v[i] == sep {
            let part = string_of(&v, start, i);
            let ghost old_parts = parts@;
            parts.push(part);
            proof {
                assert(texts(parts@) == texts(old_parts).push(part@));
                assert(v@.subrange(i + 1, i + 1) == Seq::<char>::empty());
            }
            start = i + 1;
        } else {
            proof {
                assert(v@.subrange(start as int, i + 1) == v@.subrange(
                    start as int,
                    i as int,
                ).push(v@[i as int]));
            }
        }
        i += 1;
    }
    let part = string_of(&v, start, i);
    let ghost old_parts = parts@;
    parts.push(part);
    proof {
        assert(texts(parts@) == texts(old_parts).push(part@));
        assert(v@.take(i as int) == v@);
    }
    parts
}


/// The words of `s`: its maximal runs of characters that are not white
/// space, in order.
pub open spec fn words(s: Seq<char>) -> Seq<Seq<char>>
    decreases s.len(),
{
    if s.len() == 0 {
        Seq::<Seq<char>>::empty()
    } else {
        let before = words(s.drop_last());
        if is_space(s.last()) {
            before
        } else if s.len() >= 2 && !is_space(s[s.len() - 2]) {
            before.drop_last().push(before.last().push(s.last()))
        } else {
            before.push(seq![s.last()])
        }
    }
}

/// Splits `s` into its words.
pub fn split_words(s: &str) -> (parts: Vec<String>)
    ensures
        texts(parts@) == words(s@),
{
    let v = chars_of(s);
    let mut parts: Vec<String> = Vec::new();
    let mut start: usize = 0;
    let mut in_word = false;
    let mut i: usize = 0;
    proof {
        assert(v@.take(0).len() == 0);
        assert(texts(parts@) =~= Seq::<Seq<char>>::empty());
    }
    while i < v.len()
        invariant
            start <= i <= v.len(),
            v@ == s@,
            in_word == (i > 0 && !is_space(v@[i - 1])),
            in_word ==> start < i && words(v@.take(i as int)) == texts(parts@).push(
                v@.subrange(start as int, i as int),
            ),
            !in_word ==> words(v@.take(i as int)) == texts(parts@),
        decreases v.len() - i,
    {
        let ghost before = words(v@.take(i as int));
        proof {
            assert(v@.take(i + 1).drop_last() == v@.take(i as int));
            assert(v@.take(i + 1).last() == v@[i as int]);
            if i > 0 {
                assert(v@.take(i + 1)[i - 1] == v@[i - 1]);
            }
        }
        if whitespace(v[i]) {
            if in_word {
                let part = string_of(&v, start, i);
                let ghost old_parts = parts@;
                parts.push(part);
                proof {
                    assert(texts(parts@) == texts(old_parts).push(part@));
                }
                in_word = false;
            }
        } else {
            if in_word {
                proof {
                    assert(before.drop_last() == texts(parts@));
                    assert(v@.subrange(start as int, i + 1) == v@.subrange(
                        start as int,
                        i as int,
                    ).push(v@[i as int]));
                }
            } else {
                start = i;
                in_word = true;
                proof {
                    assert(v@.subrange(i as int, i + 1) == seq![v@[i as int]]);
                }
            }
        }
        i += 1;
    }
    proof {
        assert(v@.take(i as int) == v@);
    }
    if in_word {
        let part = string_of(&v, start, i);
        let ghost old_parts = parts@;
        parts.push(part);
        proof {
            assert(texts(parts@) == texts(old_parts).push(part@));
        }
    }
    parts
}

/// The character that stands for the digit `d`.
pub open spec fn digit_char(d: nat) -> char {
    if d == 0 {
        '0'
    } else if d == 1 {
        '1'
    } else if d == 2 {
        '2'
    } else if d == 3 {
        '3'
    } else if d == 4 {
        '4'
    } else if d == 5 {
        '5'
    } else if d == 6 {
        '6'
    } else if d == 7 {
        '7'
    } else if d == 8 {
        '8'
    } else {
        '9'
    }
}

/// The value of a decimal digit character, and nothing for every other
/// character.
pub open spec fn digit_value(c: char) -> Option<nat> {
    if c == '0' {
        Some(0)
    } else if c == '1' {
        Some(1)
    } else if c == '2' {
        Some(2)
    } else if c == '3' {
        Some(3)
    } else if c == '4' {
        Some(4)
    } else if c == '5' {
        Some(5)
    } else if c == '6' {
        Some(6)
    } else if c == '7' {
        Some(7)
    } else if c == '8' {
        Some(8)
    } else if c == '9' {
        Some(9)
    } else {
        None
    }
}

/// The decimal numeral of `n`, without sign or leading zeros.
pub open spec fn decimal(n: nat) -> Seq<char>
    decreases n,
{
    if n < 10 {
        seq![digit_char(n)]
    } else {
        decimal(n / 10).push(digit_char(n % 10))
    }
}

fn digit(d: usize) -> (c: char)
    requires
        d < 10,
    ensures
        c == digit_char(d as nat),
{
    if d == 0 {
        '0'
    } else if d == 1 {
        '1'
    } else if d == 2 {
        '2'
    } else if d == 3 {
        '3'
    } else if d == 4 {
        '4'
    } else if d == 5 {
        '5'
    } else if d == 6 {
        '6'
    } else if d == 7 {
        '7'
    } else if d == 8 {
        '8'
    } else {
        '9'
    }
}

fn digit_of(c: char) -> (d: Option<usize>)
    ensures
        match digit_value(c) {
            Some(n) => d == Some(n as usize) && n < 10,
            None => d.is_none(),
        },
{
    if c == '0' {
        Some(0)
    } else if c == '1' {
        Some(1)
    } else if c == '2' {
        Some(2)
    } else if c == '3' {
        Some(3)
    } else if c == '4' {
        Some(4)
    } else if c == '5' {
        Some(5)
    } else if c == '6' {
        Some(6)
    } else if c == '7' {
        Some(7)
    } else if c == '8' {
        Some(8)
    } else if c == '9' {
        Some(9)
    } else {
        None
    }
}

/// Renders `n` as a decimal numeral.
pub fn decimal_string(n: usize) -> (s: String)
    ensures
        s@ == decimal(n as nat),
    decreases n,
{
    if n < 10 {
        let mut s = String::new();
        s.push(digit(n));
        assert(s@ == seq![digit_char(n as nat)]);
        s
    } else {
        let mut s = decimal_string(n / 10);
        s.push(digit(n % 10));
        s
    }
}

/// All characters of `s` are decimal digits.
pub open spec fn all_digits(s: Seq<char>) -> bool {
    forall|i: int| 0 <= i < s.len() ==> (#[trigger] digit_value(s[i])).is_some()
}

/// The number that a sequence of decimal digits denotes; leading zeros do
/// not count.
pub open spec fn digits_value(s: Seq<char>) -> nat
    decreases s.len(),
{
    if s.len() == 0 {
        0
    } else {
        digits_value(s.drop_last()) * 10 + match digit_value(s.last()) {
            Some(d) => d,
            None => 0,
        }
    }
}

/// The number that `s` denotes as an index: an optional `+` followed by one
/// or more decimal digits. Any other text denotes no index.
pub open spec fn index_value(s: Seq<char>) -> Option<nat> {
    let body = if s.len() > 0 && s[0] == '+' {
        s.drop_first()
    } else {
        s
    };
    if body.len() > 0 && all_digits(body) {
        Some(digits_value(body))
    } else {
        None
    }
}

proof fn lemma_digits_value_grows(s: Seq<char>, k: int)
    requires
        0 <= k <= s.len(),
    ensures
        digits_value(s.take(k)) <= digits_value(s),
    decreases s.len() - k,
{
    if k < s.len() {
        lemma_digits_value_grows(s, k + 1);
        assert(s.take(k + 1).drop_last() == s.take(k));
    } else {
        assert(s.take(k) == s);
    }
}

/// Reads `s` as an index. The result is the number that `s` denotes where
/// it denotes one that fits the machine word, and nothing otherwise.
pub fn parse_index(s: &str) -> (r: Option<usize>)
    ensures
        r == match index_value(s@) {
            Some(n) => if n <= usize::MAX {
                Some(n as usize)
            } else {
                None
            },
            None => None,
        },
{
    let v = chars_of(s);
    let first: usize = if v.len() > 0 && v[0] == '+' {
        1
    } else {
        0
    };
    let ghost body = v@.subrange(first as int, v@.len() as int);
    proof {
        if first == 1 {
            assert(body == v@.drop_first());
        } else {
            assert(body == v@);
        }
    }
    if first == v.len() {
        return None;
    }
    let mut acc: usize = 0;
    let mut i: usize = first;
    proof {
        assert(body.take(0).len() == 0);
    }
    while i < v.len()
        invariant
            first <= i <= v.len(),
            v@ == s@,
            body == v@.subrange(first as int, v@.len() as int),
            body == if s@.len() > 0 && s@[0] == '+' {
                s@.drop_first()
            } else {
                s@
            },
            body.len() > 0,
            all_digits(body.take(i - first)),
            acc == digits_value(body.take(i - first)),
        decreases v.len() - i,
    {
        proof {
            assert(body.take(i + 1 - first).drop_last() == body.take(i - first));
            assert(body.take(i + 1 - first).last() == v@[i as int]);
            assert(body[i - first] == v@[i as int]);
        }
        match digit_of(v[i]) {
            None => {
                proof {
                    assert(digit_value(body[i - first]).is_none());
                }
                return None;
            },
            Some(d) => {
                proof {
                    lemma_digits_value_grows(body, i + 1 - first);
                    assert forall|j: int| 0 <= j < body.take(i + 1 - first).len() implies (
                    #[trigger] digit_value(body.take(i + 1 - first)[j])).is_some() by {
                        if j < i - first {
                            assert(body.take(i + 1 - first)[j] == body.take(i - first)[j]);
                        }
                    }
                }
                if acc > (usize::MAX - d) / 10 {
                    proof {
                        assert(digits_value(body.take(i + 1 - first)) == acc * 10 + d);
                        assert(acc * 10 + d > usize::MAX);
                        if all_digits(body) {
                            assert(digits_value(body) > usize::MAX);
                        }
                    }
                    return None;
                }
                acc = acc * 10 + d;
            },
        }
        i += 1;
    }
    proof {
        assert(body.take(i - first) == body);
    }
    Some(acc)
}


/// Dictionary order on texts, character by character by code point. This is
/// the order in which strings compare.
pub open spec fn lex_le(a: Seq<char>, b: Seq<char>) -> bool
    decreases a.len(),
{
    if a.len() == 0 {
        true
    } else if b.len() == 0 {
        false
    } else if a[0] == b[0] {
        lex_le(a.drop_first(), b.drop_first())
    } else {
        a[0] < b[0]
    }
}

/// Each text comes no later in dictionary order than those after it.
pub open spec fn sorted(s: Seq<Seq<char>>) -> bool {
    forall|i: int, j: int| 0 <= i < j < s.len() ==> lex_le(s[i], s[j])
}

/// Of two texts, one comes no later than the other.
pub proof fn lemma_lex_total(a: Seq<char>, b: Seq<char>)
    ensures
        lex_le(a, b) || lex_le(b, a),
    decreases a.len(),
{
    if a.len() > 0 && b.len() > 0 && a[0] == b[0] {
        lemma_lex_total(a.drop_first(), b.drop_first());
    }
}

/// Dictionary order is transitive.
pub proof fn lemma_lex_transitive(a: Seq<char>, b: Seq<char>, c: Seq<char>)
    requires
        lex_le(a, b),
        lex_le(b, c),
    ensures
        lex_le(a, c),
    decreases a.len(),
{
    if a.len() > 0 && b.len() > 0 && c.len() > 0 && a[0] == b[0] && b[0] == c[0] {
        lemma_lex_transitive(a.drop_first(), b.drop_first(), c.drop_first());
    }
}

/// Whether `a` comes no later than `b` in dictionary order.
pub fn text_le(a: &str, b: &str) -> (r: bool)
    ensures
        r == lex_le(a@, b@),
{
    let x = chars_of(a);
    let y = chars_of(b);
    let mut i: usize = 0;
    proof {
        assert(x@.skip(0) == x@);
        assert(y@.skip(0) == y@);
    }
    while i < x.len() && i < y.len()
        invariant
            i <= x.len(),
            i <= y.len(),
            x@ == a@,
            y@ == b@,
            lex_le(x@, y@) == lex_le(x@.skip(i as int), y@.skip(i as int)),
        decreases x.len() - i,
    {
        proof {
            assert(x@.skip(i as int).drop_first() == x@.skip(i + 1));
            assert(y@.skip(i as int).drop_first() == y@.skip(i + 1));
            assert(x@.skip(i as int)[0] == x@[i as int]);
            assert(y@.skip(i as int)[0] == y@[i as int]);
        }
        if x[i] != y[i] {
            return x[i] < y[i];
        }
        i += 1;
    }
    i == x.len()
}

/// The number of leading texts of `s` that come no later than `x`.
pub open spec fn insert_point(s: Seq<Seq<char>>, x: Seq<char>) -> nat
    decreases s.len(),
{
    if s.len() == 0 || !lex_le(s[0], x) {
        0
    } else {
        1 + insert_point(s.drop_first(), x)
    }
}

/// `s` with `x` put in behind the leading texts that come no later than
/// `x`. In a sorted sequence that is the place that keeps it sorted.
pub open spec fn inserted(s: Seq<Seq<char>>, x: Seq<char>) -> Seq<Seq<char>> {
    s.insert(insert_point(s, x) as int, x)
}

/// The texts of `s` in dictionary order.
pub open spec fn sort_texts(s: Seq<Seq<char>>) -> Seq<Seq<char>>
    decreases s.len(),
{
    if s.len() == 0 {
        s
    } else {
        inserted(sort_texts(s.drop_last()), s.last())
    }
}

/// The insertion point lies within the sequence or at its end.
pub proof fn lemma_insert_point_bound(s: Seq<Seq<char>>, x: Seq<char>)
    ensures
        insert_point(s, x) <= s.len(),
    decreases s.len(),
{
    if s.len() > 0 && lex_le(s[0], x) {
        lemma_insert_point_bound(s.drop_first(), x);
    }
}

/// The texts before the insertion point come no later than `x`, and the
/// text at it, where there is one, comes later.
pub proof fn lemma_insert_point(s: Seq<Seq<char>>, x: Seq<char>)
    ensures
        insert_point(s, x) <= s.len(),
        forall|k: int| 0 <= k < insert_point(s, x) ==> lex_le(#[trigger] s[k], x),
        insert_point(s, x) < s.len() ==> !lex_le(s[insert_point(s, x) as int], x),
    decreases s.len(),
{
    if s.len() > 0 && lex_le(s[0], x) {
        let rest = s.drop_first();
        lemma_insert_point(rest, x);
        assert forall|k: int| 0 <= k < insert_point(s, x) implies lex_le(#[trigger] s[k], x) by {
            if k > 0 {
                assert(s[k] == rest[k - 1]);
            }
        }
        if insert_point(s, x) < s.len() {
            assert(s[insert_point(s, x) as int] == rest[insert_point(rest, x) as int]);
        }
    }
}

/// Putting a text into a sorted sequence keeps it sorted and adds exactly
/// that text.
pub proof fn lemma_inserted_is_sorted(s: Seq<Seq<char>>, x: Seq<char>)
    requires
        sorted(s),
    ensures
        sorted(inserted(s, x)),
        inserted(s, x).to_multiset() == s.to_multiset().insert(x),
        inserted(s, x).len() == s.len() + 1,
{
    lemma_insert_point(s, x);
    let pos = insert_point(s, x) as int;
    let after = inserted(s, x);
    vstd::seq_lib::to_multiset_insert(s, pos, x);
    assert forall|i: int, j: int| 0 <= i < j < after.len() implies lex_le(after[i], after[j]) by {
        if j == pos {
            assert(after[i] == s[i]);
        } else if i == pos {
            assert(after[j] == s[j - 1]);
            lemma_lex_total(s[pos], x);
            if j - 1 > pos {
                lemma_lex_transitive(x, s[pos], s[j - 1]);
            }
        } else {
            let bi = if i < pos {
                i
            } else {
                i - 1
            };
            let bj = if j < pos {
                j
            } else {
                j - 1
            };
            assert(after[i] == s[bi]);
            assert(after[j] == s[bj]);
        }
    }
}

/// `sort_texts` gives the same texts, each as often as before, in
/// dictionary order.
pub proof fn lemma_sort_texts(s: Seq<Seq<char>>)
    ensures
        sorted(sort_texts(s)),
        sort_texts(s).to_multiset() == s.to_multiset(),
        sort_texts(s).len() == s.len(),
    decreases s.len(),
{
    if s.len() > 0 {
        lemma_sort_texts(s.drop_last());
        lemma_inserted_is_sorted(sort_texts(s.drop_last()), s.last());
        vstd::seq_lib::to_multiset_build(s.drop_last(), s.last());
        assert(s.drop_last().push(s.last()) =~= s);
    }
}

/// Puts `item` into a sorted vector at the place that keeps it sorted.
pub fn insert_sorted(v: &mut Vec<String>, item: String)
    requires
        sorted(texts(old(v)@)),
    ensures
        texts(final(v)@) == inserted(texts(old(v)@), item@),
        sorted(texts(final(v)@)),
        texts(final(v)@).to_multiset() == texts(old(v)@).to_multiset().insert(item@),
        final(v)@.len() == old(v)@.len() + 1,
{
    let mut pos: usize = 0;
    let ghost all = texts(v@);
    proof {
        assert(all.skip(0) == all);
    }
    while pos < v.len() && text_le(v[pos].as_str(), item.as_str())
        invariant
            pos <= v.len(),
            *v == *old(v),
            all == texts(v@),
            forall|k: int| 0 <= k < pos ==> lex_le(texts(v@)[k], item@),
            insert_point(all, item@) == pos + insert_point(all.skip(pos as int), item@),
        decreases v.len() - pos,
    {
        proof {
            assert(all.skip(pos as int)[0] == all[pos as int]);
            assert(all.skip(pos as int).drop_first() == all.skip(pos + 1));
        }
        pos += 1;
    }
    proof {
        if pos < v.len() {
            assert(all.skip(pos as int)[0] == all[pos as int]);
        }
        assert(insert_point(all, item@) == pos);
    }
    let ghost before = texts(v@);
    v.insert(pos, item);
    proof {
        let after = texts(v@);
        assert(after =~= before.insert(pos as int, item@));
        vstd::seq_lib::to_multiset_insert(before, pos as int, item@);
        assert forall|i: int, j: int| 0 <= i < j < after.len() implies lex_le(
            after[i],
            after[j],
        ) by {
            if j == pos {
                assert(after[i] == before[i]);
            } else if i == pos {
                assert(after[j] == before[j - 1]);
                lemma_lex_total(before[pos as int], item@);
                if j - 1 > pos {
                    lemma_lex_transitive(item@, before[pos as int], before[j - 1]);
                }
            } else {
                let bi = if i < pos {
                    i
                } else {
                    i - 1
                };
                let bj = if j < pos {
                    j
                } else {
                    j - 1
                };
                assert(after[i] == before[bi]);
                assert(after[j] == before[bj]);
            }
        }
    }
}


/// The position of the first text in `keys` that equals `key`, if there is
/// one.
pub open spec fn first_index(keys: Seq<Seq<char>>, key: Seq<char>) -> Option<int>
    decreases keys.len(),
{
    if keys.len() == 0 {
        None
    } else if keys[0] == key {
        Some(0)
    } else {
        match first_index(keys.drop_first(), key) {
            Some(i) => Some(i + 1),
            None => None,
        }
    }
}

/// The position of the last text in `keys` that equals `key`, if there is
/// one.
pub open spec fn last_index(keys: Seq<Seq<char>>, key: Seq<char>) -> Option<int>
    decreases keys.len(),
{
    if keys.len() == 0 {
        None
    } else if keys.last() == key {
        Some(keys.len() - 1)
    } else {
        last_index(keys.drop_last(), key)
    }
}

/// `first_index` finds a position that holds the key, with no such position
/// before it; it finds none only where no position holds the key.
pub proof fn lemma_first_index(keys: Seq<Seq<char>>, key: Seq<char>)
    ensures
        match first_index(keys, key) {
            Some(i) => {
                &&& 0 <= i < keys.len()
                &&& keys[i] == key
                &&& forall|j: int| 0 <= j < i ==> keys[j] != key
            },
            None => forall|j: int| 0 <= j < keys.len() ==> keys[j] != key,
        },
    decreases keys.len(),
{
    if keys.len() > 0 && keys[0] != key {
        let rest = keys.drop_first();
        lemma_first_index(rest, key);
        match first_index(rest, key) {
            Some(i) => {
                assert forall|j: int| 0 <= j < i + 1 implies keys[j] != key by {
                    if j > 0 {
                        assert(keys[j] == rest[j - 1]);
                    }
                }
            },
            None => {
                assert forall|j: int| 0 <= j < keys.len() implies keys[j] != key by {
                    if j > 0 {
                        assert(keys[j] == rest[j - 1]);
                    }
                }
            },
        }
    }
}

/// A position that holds the key, with none before it, is the one that
/// `first_index` finds.
pub proof fn lemma_first_index_is(keys: Seq<Seq<char>>, key: Seq<char>, i: int)
    requires
        0 <= i < keys.len(),
        keys[i] == key,
        forall|j: int| 0 <= j < i ==> keys[j] != key,
    ensures
        first_index(keys, key) == Some(i),
{
    lemma_first_index(keys, key);
}

/// `last_index` finds a position that holds the key, with no such position
/// after it; it finds none only where no position holds the key.
pub proof fn lemma_last_index(keys: Seq<Seq<char>>, key: Seq<char>)
    ensures
        match last_index(keys, key) {
            Some(i) => {
                &&& 0 <= i < keys.len()
                &&& keys[i] == key
                &&& forall|j: int| i < j < keys.len() ==> keys[j] != key
            },
            None => forall|j: int| 0 <= j < keys.len() ==> keys[j] != key,
        },
    decreases keys.len(),
{
    if keys.len() > 0 && keys.last() != key {
        let rest = keys.drop_last();
        lemma_last_index(rest, key);
        match last_index(rest, key) {
            Some(i) => {
                assert(keys[i] == rest[i]);
                assert forall|j: int| i < j < keys.len() implies keys[j] != key by {
                    if j < rest.len() {
                        assert(keys[j] == rest[j]);
                    }
                }
            },
            None => {
                assert forall|j: int| 0 <= j < keys.len() implies keys[j] != key by {
                    if j < rest.len() {
                        assert(keys[j] == rest[j]);
                    }
                }
            },
        }
    }
}

/// Finds the first string in `v` whose text is `key`.
pub fn find_first(v: &Vec<String>, key: &str) -> (r: Option<usize>)
    ensures
        match r {
            Some(i) => first_index(texts(v@), key@) == Some(i as int),
            None => first_index(texts(v@), key@).is_none(),
        },
{
    let mut i: usize = 0;
    while i < v.len()
        invariant
            i <= v.len(),
            forall|j: int| 0 <= j < i ==> texts(v@)[j] != key@,
        decreases v.len() - i,
    {
        if same_text(v[i].as_str(), key) {
            proof {
                lemma_first_index_is(texts(v@), key@, i as int);
            }
            return Some(i);
        }
        i += 1;
    }
    proof {
        lemma_first_index(texts(v@), key@);
    }
    None
}


/// The lowercase form of a text. Of a text of ASCII characters alone it is
/// the text with the letters `A` to `Z` as `a` to `z`; of any other it is
/// what the standard library makes of it.
pub open spec fn lowered(s: Seq<char>) -> Seq<char> {
    if is_ascii(s) {
        ascii_lower(s)
    } else {
        lower(s)
    }
}

/// The lowercase form of `s`.
pub fn to_lower(s: &str) -> (r: String)
    ensures
        r@ == lowered(s@),
{
    lowercase(s)
}

/// The ASCII lowercase form of an ASCII text is an ASCII text in lowercase
/// already, and it is the lowercase form of the text's uppercase form too.
pub proof fn lemma_ascii_case(s: Seq<char>)
    requires
        is_ascii(s),
    ensures
        is_ascii(ascii_lower(s)),
        is_ascii(ascii_upper(s)),
        ascii_lower(ascii_lower(s)) == ascii_lower(s),
        ascii_lower(ascii_upper(s)) == ascii_lower(s),
        lowered(s) == ascii_lower(s),
        lowered(ascii_lower(s)) == lowered(s),
        lowered(ascii_upper(s)) == lowered(s),
{
    assert forall|i: int| 0 <= i < s.len() implies {
        &&& (ascii_lower_char(#[trigger] s[i]) as u32) < 0x80
        &&& (ascii_upper_char(s[i]) as u32) < 0x80
        &&& ascii_lower_char(ascii_lower_char(s[i])) == ascii_lower_char(s[i])
        &&& ascii_lower_char(ascii_upper_char(s[i])) == ascii_lower_char(s[i])
    } by {
        lemma_ascii_char_case(s[i]);
    }
    assert(ascii_lower(ascii_lower(s)) =~= ascii_lower(s));
    assert(ascii_lower(ascii_upper(s)) =~= ascii_lower(s));
}

/// The two ASCII case mappings of one character.
pub proof fn lemma_ascii_char_case(c: char)
    requires
        (c as u32) < 0x80,
    ensures
        (ascii_lower_char(c) as u32) < 0x80,
        (ascii_upper_char(c) as u32) < 0x80,
        ascii_lower_char(ascii_lower_char(c)) == ascii_lower_char(c),
        ascii_lower_char(ascii_upper_char(c)) == ascii_lower_char(c),
{
    let n = c as u32;
    if 'A' <= c && c <= 'Z' {
        assert(0x41 <= n <= 0x5a);
        assert((((n + 0x20) as u32) as char) as u32 == n + 0x20);
    }
    if 'a' <= c && c <= 'z' {
        assert(0x61 <= n <= 0x7a);
        assert((((n - 0x20) as u32) as char) as u32 == n - 0x20);
    }
}

/// The number of bytes that a character takes in UTF-8.
pub open spec fn utf8_width(c: char) -> nat {
    if (c as u32) < 0x80 {
        1
    } else if (c as u32) < 0x800 {
        2
    } else if (c as u32) < 0x10000 {
        3
    } else {
        4
    }
}

/// The number of bytes that a text takes in UTF-8.
pub open spec fn byte_len(s: Seq<char>) -> nat
    decreases s.len(),
{
    if s.len() == 0 {
        0
    } else {
        byte_len(s.drop_last()) + utf8_width(s.last())
    }
}

/// The number of leading characters of `s` that fit into `limit` bytes of
/// UTF-8.
pub open spec fn fitting(s: Seq<char>, limit: nat) -> nat
    decreases s.len(),
{
    if s.len() == 0 || utf8_width(s[0]) > limit {
        0
    } else {
        1 + fitting(s.drop_first(), (limit - utf8_width(s[0])) as nat)
    }
}

/// The longest prefix of `s` that takes at most `limit` bytes in UTF-8.
pub open spec fn prefix_within(s: Seq<char>, limit: nat) -> Seq<char> {
    s.take(fitting(s, limit) as int)
}

fn width_of(c: char) -> (w: usize)
    ensures
        w == utf8_width(c),
        1 <= w <= 4,
{
    let code: u32 = c as u32;
    if code < 0x80 {
        1
    } else if code < 0x800 {
        2
    } else if code < 0x10000 {
        3
    } else {
        4
    }
}

/// Whether `s` takes more than `limit` bytes in UTF-8.
pub fn longer_than(v: &Vec<char>, limit: usize) -> (r: bool)
    ensures
        r == (byte_len(v@) > limit),
{
    let mut total: usize = 0;
    let mut i: usize = 0;
    proof {
        assert(v@.take(0).len() == 0);
    }
    while i < v.len()
        invariant
            i <= v.len(),
            total == byte_len(v@.take(i as int)),
            total <= limit,
            byte_len(v@.take(i as int)) <= byte_len(v@),
        decreases v.len() - i,
    {
        let w = width_of(v[i]);
        proof {
            assert(v@.take(i + 1).drop_last() == v@.take(i as int));
            assert(v@.take(i + 1).last() == v@[i as int]);
            lemma_byte_len_grows(v@, i + 1);
        }
        if w > limit - total {
            return true;
        }
        total = total + w;
        i += 1;
    }
    proof {
        assert(v@.take(i as int) == v@);
    }
    false
}

proof fn lemma_byte_len_grows(s: Seq<char>, k: int)
    requires
        0 <= k <= s.len(),
    ensures
        byte_len(s.take(k)) <= byte_len(s),
    decreases s.len() - k,
{
    if k < s.len() {
        lemma_byte_len_grows(s, k + 1);
        assert(s.take(k + 1).drop_last() == s.take(k));
    } else {
        assert(s.take(k) == s);
    }
}

/// The longest prefix of `v` that takes at most `limit` bytes in UTF-8.
pub fn take_within(v: &Vec<char>, limit: usize) -> (r: String)
    ensures
        r@ == prefix_within(v@, limit as nat),
{
    let mut left: usize = limit;
    let mut i: usize = 0;
    proof {
        assert(v@.skip(0) == v@);
    }
    while i < v.len() && width_of(v[i]) <= left
        invariant
            i <= v.len(),
            left <= limit,
            fitting(v@, limit as nat) == i + fitting(v@.skip(i as int), left as nat),
        decreases v.len() - i,
    {
        proof {
            assert(v@.skip(i as int)[0] == v@[i as int]);
            assert(v@.skip(i as int).drop_first() == v@.skip(i + 1));
        }
        left = left - width_of(v[i]);
        i += 1;
    }
    proof {
        if i < v.len() {
            assert(v@.skip(i as int)[0] == v@[i as int]);
        }
        assert(v@.subrange(0, i as int) == v@.take(i as int));
    }
    string_of(v, 0, i)
}

} // verus!
