//! Text operations on strings.
//!
//! A string is modelled by the sequence of its characters, and each operation
//! by a spec function on such sequences.
use vstd::prelude::*;

verus! {

/// `String::push` appends the character to the end of the string.
pub assume_specification[ String::push ](s: &mut String, c: char)
    ensures
        final(s)@ == old(s)@.push(c),
;

/// What `str::to_lowercase` makes of `s`.
pub uninterp spec fn lowercase(s: Seq<char>) -> Seq<char>;

/// What `str::to_uppercase` makes of `s`.
pub uninterp spec fn uppercase(s: Seq<char>) -> Seq<char>;

/// Every character of `s` is an ASCII character.
pub open spec fn all_ascii(s: Seq<char>) -> bool {
    forall|i: int| 0 <= i < s.len() ==> #[trigger] s[i] <= '\u{7f}'
}

/// `c` with an ASCII capital replaced by its small letter.
pub open spec fn ascii_lower(c: char) -> char {
    if 'A' <= c && c <= 'Z' {
        (c as int + 32) as char
    } else {
        c
    }
}

/// `c` with an ASCII small letter replaced by its capital.
pub open spec fn ascii_upper(c: char) -> char {
    if 'a' <= c && c <= 'z' {
        (c as int - 32) as char
    } else {
        c
    }
}

/// `s` with every ASCII capital replaced by its small letter.
pub open spec fn ascii_lowercase(s: Seq<char>) -> Seq<char> {
    s.map_values(|c: char| ascii_lower(c))
}

/// `s` with every ASCII small letter replaced by its capital.
pub open spec fn ascii_uppercase(s: Seq<char>) -> Seq<char> {
    s.map_values(|c: char| ascii_upper(c))
}

/// `str::to_lowercase` depends on its argument alone. Of an ASCII string it
/// replaces each capital by its small letter and keeps the rest.
pub assume_specification[ str::to_lowercase ](s: &str) -> (lower: String)
    ensures
        lower@ == lowercase(s@),
        all_ascii(s@) ==> lower@ == ascii_lowercase(s@),
;

/// `str::to_uppercase` depends on its argument alone. Of an ASCII string it
/// replaces each small letter by its capital and keeps the rest.
pub assume_specification[ str::to_uppercase ](s: &str) -> (upper: String)
    ensures
        upper@ == uppercase(s@),
        all_ascii(s@) ==> upper@ == ascii_uppercase(s@),
;

/// The text `needle` stands in `s` from position `i` on.
pub open spec fn occurs_at(s: Seq<char>, needle: Seq<char>, i: int) -> bool {
    &&& 0 <= i
    &&& i + needle.len() <= s.len()
    &&& s.subrange(i, i + needle.len()) == needle
}

/// The text `needle` stands somewhere in `s`.
pub open spec fn occurs(s: Seq<char>, needle: Seq<char>) -> bool {
    exists|i: int| occurs_at(s, needle, i)
}

/// The characters of `s`.
pub fn chars_of(s: &str) -> (chars: Vec<char>)
    ensures
        chars@ == s@,
{
    let mut chars: Vec<char> = Vec::new();
    for c in it: s.chars()
        invariant
            it.seq() == s@,
            chars@ == s@.take(it.index() as int),
    {
        chars.push(c);
    }
    chars
}

/// The string of the characters from position `from` up to `to`.
pub fn string_of(chars: &Vec<char>, from: usize, to: usize) -> (s: String)
    requires
        from <= to <= chars.len(),
    ensures
        s@ == chars@.subrange(from as int, to as int),
{
    let mut s = String::new();
    for i in from..to
        invariant
            from <= to <= chars.len(),
            s@ == chars@.subrange(from as int, i as int),
    {
        s.push(chars[i]);
    }
    s
}

/// Whether `needle` stands in `chars` from position `at` on.
fn matches_at(chars: &Vec<char>, needle: &Vec<char>, at: usize) -> (found: bool)
    requires
        at + needle.len() <= chars.len(),
    ensures
        found == occurs_at(chars@, needle@, at as int),
{
    for k in 0..needle.len()
        invariant
            at + needle.len() <= chars.len(),
            forall|j: int| 0 <= j < k ==> chars@[at + j] == needle@[j],
    {
        if chars[at + k] != needle[k] {
            assert(chars@.subrange(at as int, at + needle@.len())[k as int] != needle@[k as int]);
            return false;
        }
    }
    assert(chars@.subrange(at as int, at + needle@.len()) =~= needle@);
    true
}

/// Whether `a` and `b` are the same text.
pub fn equals(a: &str, b: &str) -> (same: bool)
    ensures
        same == (a@ == b@),
{
    let left = chars_of(a);
    let right = chars_of(b);
    if left.len() != right.len() {
        return false;
    }
    let same = matches_at(&left, &right, 0);
    assert(left@.subrange(0, left@.len() as int) =~= left@);
    same
}

/// Whether `needle` stands somewhere in `s`.
pub fn contains(s: &str, needle: &str) -> (found: bool)
    ensures
        found == occurs(s@, needle@),
{
    let chars = chars_of(s);
    let wanted = chars_of(needle);
    let mut i: usize = 0;
    while wanted.len() <= chars.len() - i
        invariant
            chars@ == s@,
            wanted@ == needle@,
            i <= chars.len(),
            forall|j: int| j < i ==> !occurs_at(s@, needle@, j),
        decreases chars.len() - i,
    {
        if matches_at(&chars, &wanted, i) {
            return true;
        }
        proof {
            if wanted.len() == 0 {
                assert(s@.subrange(i as int, i as int) =~= needle@);
            }
        }
        i = i + 1;
    }
    false
}

/// Whether `s` begins with `prefix`.
pub fn starts_with(s: &str, prefix: &str) -> (found: bool)
    ensures
        found == prefix@.is_prefix_of(s@),
{
    let chars = chars_of(s);
    let wanted = chars_of(prefix);
    wanted.len() <= chars.len() && matches_at(&chars, &wanted, 0)
}

/// Whether `s` ends in `suffix`.
pub fn ends_with(s: &str, suffix: &str) -> (found: bool)
    ensures
        found == suffix@.is_suffix_of(s@),
{
    let chars = chars_of(s);
    let wanted = chars_of(suffix);
    wanted.len() <= chars.len() && matches_at(&chars, &wanted, chars.len() - wanted.len())
}

/// `s` without the leading `prefix`, or `s` itself where it does not begin so.
pub open spec fn without_prefix(s: Seq<char>, prefix: Seq<char>) -> Seq<char> {
    if prefix.is_prefix_of(s) {
        s.skip(prefix.len() as int)
    } else {
        s
    }
}

/// Removes a leading `prefix` once.
pub fn strip_prefix(s: &str, prefix: &str) -> (rest: String)
    ensures
        rest@ == without_prefix(s@, prefix@),
{
    let chars = chars_of(s);
    let from: usize = if starts_with(s, prefix) {
        chars_of(prefix).len()
    } else {
        0
    };
    string_of(&chars, from, chars.len())
}

/// `s` without every trailing `suffix`.
pub open spec fn without_suffixes(s: Seq<char>, suffix: Seq<char>) -> Seq<char>
    decreases s.len(),
{
    if suffix.len() > 0 && suffix.is_suffix_of(s) {
        without_suffixes(s.take(s.len() - suffix.len()), suffix)
    } else {
        s
    }
}

/// Removes a trailing `suffix` as often as there is one.
pub fn trim_end_matches(s: &str, suffix: &str) -> (rest: String)
    ensures
        rest@ == without_suffixes(s@, suffix@),
{
    let chars = chars_of(s);
    let wanted = chars_of(suffix);
    let mut end: usize = chars.len();
    proof {
        assert(s@.take(end as int) =~= s@);
    }
    while wanted.len() > 0 && wanted.len() <= end && matches_at(
        &chars,
        &wanted,
        end - wanted.len(),
    )
        invariant
            chars@ == s@,
            wanted@ == suffix@,
            end <= chars.len(),
            without_suffixes(s@, suffix@) == without_suffixes(s@.take(end as int), suffix@),
        decreases end,
    {
        let next: usize = end - wanted.len();
        proof {
            let kept = s@.take(end as int);
            assert(kept.subrange(next as int, end as int) =~= s@.subrange(next as int, end as int));
            assert(kept.take(next as int) =~= s@.take(next as int));
        }
        end = next;
    }
    proof {
        let kept = s@.take(end as int);
        if suffix@.len() > 0 && suffix@.len() <= end {
            let next = end - suffix@.len();
            assert(kept.subrange(next as int, end as int) =~= s@.subrange(next as int, end as int));
        }
        assert(s@.subrange(0, end as int) =~= kept);
    }
    string_of(&chars, 0, end)
}

/// `s` with the character `to` in place of every `from`.
pub open spec fn replaced(s: Seq<char>, from: char, to: char) -> Seq<char> {
    Seq::new(
        s.len(),
        |i: int|
            if s[i] == from {
                to
            } else {
                s[i]
            },
    )
}

/// Puts the character `to` in place of every `from`.
pub fn replace_char(s: &str, from: char, to: char) -> (new: String)
    ensures
        new@ == replaced(s@, from, to),
{
    let chars = chars_of(s);
    let mut new = String::new();
    for i in 0..chars.len()
        invariant
            chars@ == s@,
            new@ == replaced(s@, from, to).take(i as int),
    {
        let c: char = chars[i];
        if c == from {
            new.push(to);
        } else {
            new.push(c);
        }
    }
    new
}

/// `c` has the Unicode property White_Space.
pub open spec fn is_white_space(c: char) -> bool {
    ||| '\u{9}' <= c && c <= '\u{d}'
    ||| c == '\u{20}'
    ||| c == '\u{85}'
    ||| c == '\u{a0}'
    ||| c == '\u{1680}'
    ||| '\u{2000}' <= c && c <= '\u{200a}'
    ||| c == '\u{2028}'
    ||| c == '\u{2029}'
    ||| c == '\u{202f}'
    ||| c == '\u{205f}'
    ||| c == '\u{3000}'
}

/// Which characters are trimmed from the ends of a text.
#[derive(Clone, Copy, Debug, PartialEq, Eq, Structural)]
pub enum Edge {
    WhiteSpace,
    Slash,
}

impl Edge {
    /// `c` is trimmed from an end.
    pub open spec fn strips(self, c: char) -> bool {
        match self {
            Edge::WhiteSpace => is_white_space(c),
            Edge::Slash => c == '/',
        }
    }

    /// Whether `c` is trimmed from an end.
    pub fn removes(self, c: char) -> (yes: bool)
        ensures
            yes == self.strips(c),
    {
        match self {
            Edge::WhiteSpace => ('\u{9}' <= c && c <= '\u{d}') || c == '\u{20}' || c == '\u{85}'
                || c == '\u{a0}' || c == '\u{1680}' || ('\u{2000}' <= c && c <= '\u{200a}') || c
                == '\u{2028}' || c == '\u{2029}' || c == '\u{202f}' || c == '\u{205f}' || c
                == '\u{3000}',
            Edge::Slash => c == '/',
        }
    }
}

/// `s` from its first character that is not trimmed on.
pub open spec fn trimmed_start(edge: Edge, s: Seq<char>) -> Seq<char>
    decreases s.len(),
{
    if s.len() > 0 && edge.strips(s[0]) {
        trimmed_start(edge, s.skip(1))
    } else {
        s
    }
}

/// `s` up to its last character that is not trimmed.
pub open spec fn trimmed_end(edge: Edge, s: Seq<char>) -> Seq<char>
    decreases s.len(),
{
    if s.len() > 0 && edge.strips(s.last()) {
        trimmed_end(edge, s.drop_last())
    } else {
        s
    }
}

/// `s` trimmed at both ends.
pub open spec fn trimmed(edge: Edge, s: Seq<char>) -> Seq<char> {
    trimmed_end(edge, trimmed_start(edge, s))
}

/// Trims `s` at both ends.
pub fn trim(edge: Edge, s: &str) -> (rest: String)
    ensures
        rest@ == trimmed(edge, s@),
{
    let chars = chars_of(s);
    let mut from: usize = 0;
    proof {
        assert(s@.skip(0) =~= s@);
    }
    while from < chars.len() && edge.removes(chars[from])
        invariant
            chars@ == s@,
            from <= chars.len(),
            trimmed_start(edge, s@) == trimmed_start(edge, s@.skip(from as int)),
        decreases chars.len() - from,
    {
        proof {
            assert(s@.skip(from as int).skip(1) =~= s@.skip(from + 1));
        }
        from = from + 1;
    }
    let mut to: usize = chars.len();
    proof {
        assert(s@.subrange(from as int, to as int) =~= s@.skip(from as int));
        assert(trimmed_start(edge, s@) == s@.skip(from as int));
    }
    while from < to && edge.removes(chars[to - 1])
        invariant
            chars@ == s@,
            from <= to <= chars.len(),
            trimmed(edge, s@) == trimmed_end(edge, s@.subrange(from as int, to as int)),
        decreases to - from,
    {
        proof {
            assert(s@.subrange(from as int, to as int).drop_last() =~= s@.subrange(
                from as int,
                to - 1,
            ));
        }
        to = to - 1;
    }
    string_of(&chars, from, to)
}

/// A line without the carriage return that ends it.
pub open spec fn without_return(line: Seq<char>) -> Seq<char> {
    if line.len() > 0 && line.last() == '\r' {
        line.drop_last()
    } else {
        line
    }
}

/// The lines of `s`: the pieces that end in a line feed, without it and
/// without a carriage return before it, and what follows the last line feed
/// if that is not empty.
pub open spec fn lines_of(s: Seq<char>) -> Seq<Seq<char>>
    decreases s.len(),
{
    if s.len() == 0 {
        Seq::empty()
    } else {
        proof {
            s.index_of_first_ensures('\n');
        }
        match s.index_of_first('\n') {
            Some(i) => seq![without_return(s.take(i))] + lines_of(s.skip(i + 1)),
            None => seq![s],
        }
    }
}

/// Splits `s` into its lines.
pub fn lines(s: &str) -> (all: Vec<String>)
    ensures
        all.deep_view() == lines_of(s@),
{
    let chars = chars_of(s);
    let mut all: Vec<String> = Vec::new();
    let mut start: usize = 0;
    proof {
        assert(s@.skip(0) =~= s@);
        assert(all.deep_view() + lines_of(s@) =~= lines_of(s@));
    }
    for i in 0..chars.len()
        invariant
            chars@ == s@,
            start <= i,
            forall|j: int| start <= j < i ==> s@[j] != '\n',
            all.deep_view() + lines_of(s@.skip(start as int)) == lines_of(s@),
    {
        if chars[i] == '\n' {
            let end: usize = if i > start && chars[i - 1] == '\r' {
                i - 1
            } else {
                i
            };
            let line = string_of(&chars, start, end);
            let ghost before = all.deep_view();
            let ghost rest = s@.skip(start as int);
            proof {
                let at = i - start;
                rest.index_of_first_ensures('\n');
                assert(rest[at] == '\n');
                assert(rest.contains('\n'));
                let first = rest.index_of_first('\n')->0;
                assert(first == at) by {
                    if first < at {
                        assert(rest[first] == s@[start + first]);
                    }
                }
                assert(rest.take(at) =~= s@.subrange(start as int, i as int));
                assert(line@ =~= without_return(rest.take(at)));
                assert(rest.skip(at + 1) =~= s@.skip(i + 1));
            }
            all.push(line);
            proof {
                assert(all.deep_view() =~= before.push(line@));
                assert(before + (seq![line@] + lines_of(s@.skip(i + 1))) =~= before.push(line@)
                    + lines_of(s@.skip(i + 1)));
            }
            start = i + 1;
        }
    }
    if start < chars.len() {
        let line = string_of(&chars, start, chars.len());
        let ghost before = all.deep_view();
        let ghost rest = s@.skip(start as int);
        proof {
            rest.index_of_first_ensures('\n');
            if rest.contains('\n') {
                let k = rest.index_of_first('\n')->0;
                assert(rest[k] == s@[start + k]);
            }
            assert(line@ =~= rest);
        }
        all.push(line);
        proof {
            assert(all.deep_view() =~= before + seq![line@]);
        }
    } else {
        proof {
            assert(all.deep_view() + Seq::<Seq<char>>::empty() =~= all.deep_view());
        }
    }
    all
}

} // verus!
