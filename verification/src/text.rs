//! Character classes, maximal runs of a class, and trimming.

use vstd::prelude::*;

verus! {

/// `String::push` appends one character to the end of the string.
pub assume_specification[ String::push ](text: &mut String, c: char)
    ensures
        final(text)@ == old(text)@.push(c),
;

/// A decimal digit, `0` to `9`.
pub open spec fn is_digit(c: char) -> bool {
    '0' <= c <= '9'
}

/// A character with the Unicode property `White_Space`.
pub open spec fn is_whitespace(c: char) -> bool {
    ||| '\u{9}' <= c <= '\u{d}'
    ||| c == ' '
    ||| c == '\u{85}'
    ||| c == '\u{a0}'
    ||| c == '\u{1680}'
    ||| '\u{2000}' <= c <= '\u{200a}'
    ||| c == '\u{2028}'
    ||| c == '\u{2029}'
    ||| c == '\u{202f}'
    ||| c == '\u{205f}'
    ||| c == '\u{3000}'
}

/// The sets of characters that the cell grammar is made of.
#[derive(Clone, Copy, Debug, PartialEq, Eq)]
pub enum CharClass {
    /// What is discarded around a cell.
    Whitespace,
    /// What a mantissa is made of: digits, `.`, `-` and `+`.
    Mantissa,
    /// What an exponent is made of: digits, `-` and `+`.
    Exponent,
}

impl CharClass {
    /// Whether `c` belongs to the class.
    pub open spec fn contains(self, c: char) -> bool {
        match self {
            CharClass::Whitespace => is_whitespace(c),
            CharClass::Mantissa => is_digit(c) || c == '.' || c == '-' || c == '+',
            CharClass::Exponent => is_digit(c) || c == '-' || c == '+',
        }
    }

    /// Whether `c` belongs to the class.
    pub fn has(self, c: char) -> (member: bool)
        ensures
            member == self.contains(c),
    {
        let digit = '0' <= c && c <= '9';
        match self {
            CharClass::Whitespace => {
                ('\u{9}' <= c && c <= '\u{d}') || c == ' ' || c == '\u{85}' || c == '\u{a0}'
                    || c == '\u{1680}' || ('\u{2000}' <= c && c <= '\u{200a}') || c == '\u{2028}'
                    || c == '\u{2029}' || c == '\u{202f}' || c == '\u{205f}' || c == '\u{3000}'
            },
            CharClass::Mantissa => digit || c == '.' || c == '-' || c == '+',
            CharClass::Exponent => digit || c == '-' || c == '+',
        }
    }
}

/// The number of characters at the front of `s`, up to the first one outside
/// `class`.
pub open spec fn prefix_len(s: Seq<char>, class: CharClass) -> nat
    decreases s.len(),
{
    if s.len() > 0 && class.contains(s[0]) {
        1 + prefix_len(s.drop_first(), class)
    } else {
        0
    }
}

/// The number of characters at the back of `s`, down to the last one outside
/// `class`.
pub open spec fn suffix_len(s: Seq<char>, class: CharClass) -> nat
    decreases s.len(),
{
    if s.len() > 0 && class.contains(s.last()) {
        1 + suffix_len(s.drop_last(), class)
    } else {
        0
    }
}

/// `s` without the whitespace at its front and at its back.
pub open spec fn trimmed(s: Seq<char>) -> Seq<char> {
    let rest = s.skip(prefix_len(s, CharClass::Whitespace) as int);
    rest.take(rest.len() - suffix_len(rest, CharClass::Whitespace))
}

/// `prefix_len` is the one position that has only members of the class
/// before it and no member at it.
pub proof fn lemma_prefix_len(s: Seq<char>, class: CharClass, n: int)
    requires
        0 <= n <= s.len(),
        forall|i: int| 0 <= i < n ==> class.contains(#[trigger] s[i]),
        n < s.len() ==> !class.contains(s[n]),
    ensures
        prefix_len(s, class) == n,
    decreases s.len(),
{
    if n > 0 {
        let rest = s.drop_first();
        assert forall|i: int| 0 <= i < n - 1 implies class.contains(#[trigger] rest[i]) by {
            assert(rest[i] == s[i + 1]);
        }
        lemma_prefix_len(rest, class, n - 1);
    }
}

/// `suffix_len` is the one length of a tail that has only members of the
/// class in it and no member just before it.
pub proof fn lemma_suffix_len(s: Seq<char>, class: CharClass, n: int)
    requires
        0 <= n <= s.len(),
        forall|i: int| s.len() - n <= i < s.len() ==> class.contains(#[trigger] s[i]),
        n < s.len() ==> !class.contains(s[s.len() - n - 1]),
    ensures
        suffix_len(s, class) == n,
    decreases s.len(),
{
    if n > 0 {
        let rest = s.drop_last();
        assert forall|i: int| rest.len() - (n - 1) <= i < rest.len() implies class.contains(
            #[trigger] rest[i],
        ) by {
            assert(rest[i] == s[i]);
        }
        lemma_suffix_len(rest, class, n - 1);
    }
}

/// What `prefix_len` counts: members of the class, ended by a character
/// outside it or by the end of `s`.
pub proof fn lemma_prefix_len_bounds(s: Seq<char>, class: CharClass)
    ensures
        prefix_len(s, class) <= s.len(),
        forall|i: int| 0 <= i < prefix_len(s, class) ==> class.contains(#[trigger] s[i]),
        prefix_len(s, class) < s.len() ==> !class.contains(s[prefix_len(s, class) as int]),
    decreases s.len(),
{
    if s.len() > 0 && class.contains(s[0]) {
        let rest = s.drop_first();
        lemma_prefix_len_bounds(rest, class);
        assert forall|i: int| 0 <= i < prefix_len(s, class) implies class.contains(
            #[trigger] s[i],
        ) by {
            if i > 0 {
                assert(s[i] == rest[i - 1]);
            }
        }
    }
}

/// What `suffix_len` counts: members of the class, preceded by a character
/// outside it or by the start of `s`.
pub proof fn lemma_suffix_len_bounds(s: Seq<char>, class: CharClass)
    ensures
        suffix_len(s, class) <= s.len(),
        forall|i: int|
            s.len() - suffix_len(s, class) <= i < s.len() ==> class.contains(#[trigger] s[i]),
        suffix_len(s, class) < s.len() ==> !class.contains(
            s[s.len() - suffix_len(s, class) - 1],
        ),
    decreases s.len(),
{
    if s.len() > 0 && class.contains(s.last()) {
        let rest = s.drop_last();
        lemma_suffix_len_bounds(rest, class);
        assert forall|i: int| s.len() - suffix_len(s, class) <= i < s.len() implies class.contains(
            #[trigger] s[i],
        ) by {
            if i < s.len() - 1 {
                assert(s[i] == rest[i]);
            }
        }
    }
}

/// Trimming leaves no whitespace at either end.
pub proof fn lemma_trimmed_ends(s: Seq<char>)
    ensures
        trimmed(s).len() > 0 ==> !is_whitespace(trimmed(s)[0]) && !is_whitespace(
            trimmed(s).last(),
        ),
{
    let rest = s.skip(prefix_len(s, CharClass::Whitespace) as int);
    lemma_prefix_len_bounds(s, CharClass::Whitespace);
    lemma_suffix_len_bounds(rest, CharClass::Whitespace);
}

/// Trimming changes nothing in a text that neither starts nor ends with
/// whitespace.
pub proof fn lemma_trimmed_fixed(s: Seq<char>)
    requires
        s.len() > 0 ==> !is_whitespace(s[0]) && !is_whitespace(s.last()),
    ensures
        trimmed(s) == s,
{
}

/// Trimming twice is trimming once.
pub proof fn lemma_trimmed_idempotent(s: Seq<char>)
    ensures
        trimmed(trimmed(s)) == trimmed(s),
{
    lemma_trimmed_ends(s);
    lemma_trimmed_fixed(trimmed(s));
}

/// Trimming removes whitespace and nothing else: `s` is a run of
/// whitespace, then `trimmed(s)`, then a run of whitespace.
pub proof fn lemma_trimmed_removes_whitespace(s: Seq<char>)
    ensures
        ({
            let front = prefix_len(s, CharClass::Whitespace) as int;
            let back = front + trimmed(s).len();
            &&& 0 <= front <= back <= s.len()
            &&& trimmed(s) == s.subrange(front, back)
            &&& forall|i: int| 0 <= i < front ==> is_whitespace(#[trigger] s[i])
            &&& forall|i: int| back <= i < s.len() ==> is_whitespace(#[trigger] s[i])
        }),
{
    let front = prefix_len(s, CharClass::Whitespace) as int;
    let rest = s.skip(front);
    lemma_prefix_len_bounds(s, CharClass::Whitespace);
    lemma_suffix_len_bounds(rest, CharClass::Whitespace);
    let back = front + trimmed(s).len();
    assert forall|i: int| back <= i < s.len() implies is_whitespace(#[trigger] s[i]) by {
        assert(s[i] == rest[i - front]);
    }
}

/// The characters of `text`, in order.
pub fn chars_of(text: &str) -> (chars: Vec<char>)
    ensures
        chars@ == text@,
{
    let mut chars: Vec<char> = Vec::new();
    for c in it: text.chars()
        invariant
            it.seq() == text@,
            chars@ == it.seq().take(it.index() as int),
    {
        chars.push(c);
    }
    chars
}

/// Appends `chars[from..to]` to `out`.
pub fn push_range(out: &mut String, chars: &Vec<char>, from: usize, to: usize)
    requires
        from <= to <= chars.len(),
    ensures
        final(out)@ == old(out)@ + chars@.subrange(from as int, to as int),
{
    let mut i: usize = from;
    while i < to
        invariant
            from <= i <= to <= chars.len(),
            out@ == old(out)@ + chars@.subrange(from as int, i as int),
        decreases to - i,
    {
        out.push(chars[i]);
        i += 1;
    }
}

/// The string made of `chars[from..to]`.
pub fn string_of(chars: &Vec<char>, from: usize, to: usize) -> (text: String)
    requires
        from <= to <= chars.len(),
    ensures
        text@ == chars@.subrange(from as int, to as int),
{
    let mut text = String::new();
    push_range(&mut text, chars, from, to);
    text
}

/// Where the run of `class` that starts at `from` ends, looking no further
/// than `to`.
pub fn scan_prefix(chars: &Vec<char>, from: usize, to: usize, class: CharClass) -> (end: usize)
    requires
        from <= to <= chars.len(),
    ensures
        end == from + prefix_len(chars@.subrange(from as int, to as int), class),
        from <= end <= to,
{
    let ghost window = chars@.subrange(from as int, to as int);
    let mut end: usize = from;
    while end < to && class.has(chars[end])
        invariant
            from <= end <= to <= chars.len(),
            window == chars@.subrange(from as int, to as int),
            forall|i: int| 0 <= i < end - from ==> class.contains(#[trigger] window[i]),
        decreases to - end,
    {
        end += 1;
    }
    proof {
        lemma_prefix_len(window, class, end - from);
    }
    end
}

/// Where the run of `class` that ends at `to` starts, looking no further
/// back than `from`.
pub fn scan_suffix(chars: &Vec<char>, from: usize, to: usize, class: CharClass) -> (start: usize)
    requires
        from <= to <= chars.len(),
    ensures
        start == to - suffix_len(chars@.subrange(from as int, to as int), class),
        from <= start <= to,
{
    let ghost window = chars@.subrange(from as int, to as int);
    let mut start: usize = to;
    while start > from && class.has(chars[start - 1])
        invariant
            from <= start <= to <= chars.len(),
            window == chars@.subrange(from as int, to as int),
            forall|i: int| start - from <= i < window.len() ==> class.contains(#[trigger] window[i]),
        decreases start - from,
    {
        start -= 1;
    }
    proof {
        lemma_suffix_len(window, class, to - start);
    }
    start
}

/// Where `chars` without the whitespace around it starts and ends. Where
/// nothing but whitespace is found, both are the length of `chars`.
pub fn trim_bounds(chars: &Vec<char>) -> (bounds: (usize, usize))
    ensures
        bounds.0 == prefix_len(chars@, CharClass::Whitespace),
        bounds.1 == bounds.0 + trimmed(chars@).len(),
        bounds.1 <= chars.len(),
        chars@.subrange(bounds.0 as int, bounds.1 as int) == trimmed(chars@),
{
    let start = scan_prefix(chars, 0, chars.len(), CharClass::Whitespace);
    let end = scan_suffix(chars, start, chars.len(), CharClass::Whitespace);
    assert(chars@.subrange(0, chars.len() as int) == chars@);
    (start, end)
}

/// `text` without the whitespace at its front and at its back.
pub fn trim(text: &str) -> (out: String)
    ensures
        out@ == trimmed(text@),
{
    let chars = chars_of(text);
    let (start, end) = trim_bounds(&chars);
    string_of(&chars, start, end)
}

} // verus!
