//! What the operations on texts, paths and routes give, said of the texts
//! themselves.
use crate::pattern;
use crate::route;
use crate::text;
use crate::text::Edge;
use vstd::prelude::*;

verus! {

/// A text occurs in another if and only if that is the text with something
/// before and something behind it.
pub proof fn law_occurs_iff_split(s: Seq<char>, needle: Seq<char>)
    ensures
        text::occurs(s, needle) <==> exists|before: Seq<char>, behind: Seq<char>|
            s == #[trigger] (before + needle + behind),
{
    if text::occurs(s, needle) {
        let i = choose|i: int| text::occurs_at(s, needle, i);
        let before = s.take(i);
        let behind = s.skip(i + needle.len());
        assert(s =~= before + s.subrange(i, i + needle.len()) + behind);
        assert(s == before + needle + behind);
    }
    if exists|before: Seq<char>, behind: Seq<char>| s == #[trigger] (before + needle + behind) {
        let (before, behind) = choose|before: Seq<char>, behind: Seq<char>|
            s == #[trigger] (before + needle + behind);
        assert(s.subrange(before.len() as int, (before.len() + needle.len()) as int) =~= needle);
        assert(text::occurs_at(s, needle, before.len() as int));
    }
}

/// A prefix is taken off once; a text that does not begin with it stays.
pub proof fn law_prefix_is_taken_off(s: Seq<char>, prefix: Seq<char>)
    ensures
        text::without_prefix(prefix + s, prefix) == s,
        !prefix.is_prefix_of(s) ==> text::without_prefix(s, prefix) == s,
{
    assert((prefix + s).subrange(0, prefix.len() as int) =~= prefix);
    assert((prefix + s).skip(prefix.len() as int) =~= s);
}

/// A suffix that is not empty is taken off, once more for each time that it
/// stands at the end; a text that does not end in it stays.
pub proof fn law_suffixes_are_taken_off(s: Seq<char>, suffix: Seq<char>)
    ensures
        suffix.len() > 0 ==> text::without_suffixes(s + suffix, suffix) == text::without_suffixes(
            s,
            suffix,
        ),
        !suffix.is_suffix_of(s) || suffix.len() == 0 ==> text::without_suffixes(s, suffix) == s,
{
    let longer = s + suffix;
    assert(longer.subrange(longer.len() - suffix.len(), longer.len() as int) =~= suffix);
    assert(longer.take(longer.len() - suffix.len()) =~= s);
}

/// Replacing keeps every character but the one that is replaced.
pub proof fn law_replacement_is_by_character(s: Seq<char>, from: char, to: char)
    ensures
        text::replaced(s, from, to).len() == s.len(),
        forall|i: int|
            0 <= i < s.len() ==> {
                &&& s[i] == from ==> #[trigger] text::replaced(s, from, to)[i] == to
                &&& s[i] != from ==> text::replaced(s, from, to)[i] == s[i]
            },
{
}

/// Trimming at the beginning takes off the trimmed characters there.
proof fn lemma_trimmed_start(edge: Edge, front: Seq<char>, rest: Seq<char>)
    requires
        forall|i: int| 0 <= i < front.len() ==> edge.strips(#[trigger] front[i]),
    ensures
        text::trimmed_start(edge, front + rest) == text::trimmed_start(edge, rest),
    decreases front.len(),
{
    if front.len() == 0 {
        assert(front + rest =~= rest);
    } else {
        assert((front + rest)[0] == front[0]);
        assert((front + rest).skip(1) =~= front.skip(1) + rest);
        assert forall|i: int| 0 <= i < front.skip(1).len() implies edge.strips(
            #[trigger] front.skip(1)[i],
        ) by {
            assert(edge.strips(front[i + 1]));
        }
        lemma_trimmed_start(edge, front.skip(1), rest);
    }
}

/// Trimming at the end takes off the trimmed characters there.
proof fn lemma_trimmed_back(edge: Edge, rest: Seq<char>, back: Seq<char>)
    requires
        forall|i: int| 0 <= i < back.len() ==> edge.strips(#[trigger] back[i]),
    ensures
        text::trimmed_end(edge, rest + back) == text::trimmed_end(edge, rest),
    decreases back.len(),
{
    if back.len() == 0 {
        assert(rest + back =~= rest);
    } else {
        assert((rest + back).last() == back[back.len() - 1]);
        assert((rest + back).drop_last() =~= rest + back.drop_last());
        lemma_trimmed_back(edge, rest, back.drop_last());
    }
}

/// Trimming takes off what is trimmed at either end, and nothing else.
pub proof fn law_trim_takes_off_the_ends(
    edge: Edge,
    front: Seq<char>,
    kept: Seq<char>,
    back: Seq<char>,
)
    requires
        forall|i: int| 0 <= i < front.len() ==> edge.strips(#[trigger] front[i]),
        forall|i: int| 0 <= i < back.len() ==> edge.strips(#[trigger] back[i]),
        kept.len() > 0 ==> !edge.strips(kept[0]) && !edge.strips(kept.last()),
    ensures
        text::trimmed(edge, front + kept + back) == kept,
{
    assert(front + kept + back =~= front + (kept + back));
    lemma_trimmed_start(edge, front, kept + back);
    if kept.len() > 0 {
        assert((kept + back)[0] == kept[0]);
        lemma_trimmed_back(edge, kept, back);
    } else {
        assert(kept + back =~= back + Seq::<char>::empty());
        lemma_trimmed_start(edge, back, Seq::empty());
        assert(kept =~= Seq::empty());
    }
}

/// Only a slash is trimmed from routes.
pub proof fn law_slash_is_what_routes_lose(c: char)
    ensures
        Edge::Slash.strips(c) <==> c == '/',
{
}

/// Blanks, tabs and line ends are trimmed as white space; visible ASCII
/// characters are not.
pub proof fn law_white_space_of_ascii(c: char)
    requires
        c <= '\u{7f}',
    ensures
        Edge::WhiteSpace.strips(c) <==> c == ' ' || ('\t' <= c && c <= '\r'),
{
}

/// Beyond ASCII, what is trimmed are the spaces and line ends that Unicode
/// knows: the next line sign, the spaces of various widths and the separators
/// of lines and paragraphs.
pub proof fn law_white_space_beyond_ascii(c: char)
    requires
        c > '\u{7f}',
    ensures
        Edge::WhiteSpace.strips(c) <==> {
            let code = c as int;
            code == 0x85 || code == 0xa0 || code == 0x1680 || 0x2000 <= code <= 0x200a || code
                == 0x2028 || code == 0x2029 || code == 0x202f || code == 0x205f || code == 0x3000
        },
{
}

/// Letters of ASCII change their case by their place in the alphabet; other
/// characters stay.
pub proof fn law_case_is_by_character(s: Seq<char>, i: int)
    requires
        0 <= i < s.len(),
    ensures
        text::ascii_lowercase(s).len() == s.len(),
        text::ascii_uppercase(s).len() == s.len(),
        'A' <= s[i] && s[i] <= 'Z' ==> text::ascii_lowercase(s)[i] as int - 'a' as int
            == s[i] as int - 'A' as int,
        !('A' <= s[i] && s[i] <= 'Z') ==> text::ascii_lowercase(s)[i] == s[i],
        'a' <= s[i] && s[i] <= 'z' ==> text::ascii_uppercase(s)[i] as int - 'A' as int
            == s[i] as int - 'a' as int,
        !('a' <= s[i] && s[i] <= 'z') ==> text::ascii_uppercase(s)[i] == s[i],
{
}

/// A text splits at its line feeds: each ends a line, together with one
/// carriage return before it, and what is behind the last one is a line too
/// unless it is empty. A carriage return elsewhere stays.
pub proof fn law_lines_split_at_line_feeds(line: Seq<char>, rest: Seq<char>)
    requires
        !line.contains('\n'),
    ensures
        text::lines_of(Seq::empty()) == Seq::<Seq<char>>::empty(),
        line.len() > 0 ==> text::lines_of(line) == seq![line],
        !(line.len() > 0 && line.last() == '\r') ==> text::lines_of(line + seq!['\n'] + rest)
            == seq![line] + text::lines_of(rest),
        text::lines_of(line + seq!['\r', '\n'] + rest) == seq![line] + text::lines_of(rest),
{
    if line.len() > 0 {
        line.index_of_first_ensures('\n');
        assert(text::lines_of(line) =~= seq![line]);
    }
    crate::laws::lemma_line_in_front(line, rest);
    let returned = line.push('\r');
    assert(!returned.contains('\n')) by {
        if returned.contains('\n') {
            let at = choose|i: int| 0 <= i < returned.len() && returned[i] == '\n';
            assert(line[at] == '\n');
        }
    }
    crate::laws::lemma_line_in_front(returned, rest);
    assert(returned.drop_last() =~= line);
    assert(line + seq!['\r', '\n'] + rest =~= returned + seq!['\n'] + rest);
}

/// There is one slash between a root and a file, whether or not the root ends
/// in it.
pub proof fn law_join_puts_one_slash(root: Seq<char>, file: Seq<char>)
    ensures
        route::joined(root + "/"@, file) == root + "/"@ + file,
        root.len() == 0 || root.last() != '/' ==> route::joined(root, file) == root + "/"@ + file,
{
    reveal_strlit("/");
    let longer = root + "/"@;
    assert(longer.subrange(longer.len() - 1, longer.len() as int) =~= "/"@);
    if "/"@.is_suffix_of(root) {
        assert(root.subrange(root.len() - 1, root.len() as int)[0] == root.last());
    }
}

/// A route is made of the base and the method's part, both without the
/// slashes around them; it is the base alone where there is no part, and the
/// part alone where it begins with a slash.
pub proof fn law_route_of_base_and_part(
    left: Seq<char>,
    base: Seq<char>,
    right: Seq<char>,
    part: Seq<char>,
    behind: Seq<char>,
    ahead: Seq<char>,
)
    requires
        forall|i: int| 0 <= i < left.len() ==> #[trigger] left[i] == '/',
        forall|i: int| 0 <= i < right.len() ==> #[trigger] right[i] == '/',
        forall|i: int| 0 <= i < behind.len() ==> #[trigger] behind[i] == '/',
        forall|i: int| 0 <= i < ahead.len() ==> #[trigger] ahead[i] == '/',
        base.len() > 0 ==> base[0] != '/' && base.last() != '/',
        part.len() > 0 ==> part[0] != '/' && part.last() != '/',
    ensures
        route::route_of(left + base + right, Seq::empty()) == "/"@ + base,
        part.len() > 0 ==> route::route_of(left + base + right, part + behind) == "/"@ + base
            + "/"@ + part,
        ahead.len() > 0 ==> route::route_of(left + base + right, ahead + part + behind) == "/"@
            + part,
{
    law_trim_takes_off_the_ends(Edge::Slash, left, base, right);
    law_trim_takes_off_the_ends(Edge::Slash, ahead, part, behind);
    law_trim_takes_off_the_ends(Edge::Slash, Seq::empty(), part, behind);
    assert(Seq::empty() + part + behind =~= part + behind);
    assert(text::trimmed(Edge::Slash, Seq::empty()) =~= Seq::empty());
    if ahead.len() > 0 {
        assert((ahead + part + behind)[0] == ahead[0]);
    }
    if part.len() > 0 {
        assert((part + behind)[0] == part[0]);
    }
}

/// A search finds what the compiled pattern finds, and a group is told by its
/// index.
pub proof fn law_search_is_by_compiled_pattern(
    pattern: Seq<char>,
    text: Seq<char>,
    groups: Seq<Option<Seq<char>>>,
    index: int,
)
    ensures
        pattern::compiled(pattern) matches Some(re) ==> pattern::search(pattern, text)
            == pattern::groups(re, text),
        pattern::compiled(pattern) is None ==> pattern::search(pattern, text) is None,
        0 <= index < groups.len() ==> pattern::found_group(Some(groups), index) == groups[index],
        !(0 <= index < groups.len()) ==> pattern::found_group(Some(groups), index) is None,
        pattern::found_group(None, index) is None,
{
}

} // verus!
