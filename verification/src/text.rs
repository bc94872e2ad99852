//! The grammar of one catalog line, on sequences of characters: white space
//! and trimming, lines, the final segment of a path, and the file-name
//! pattern `patch-<version>.zip`.

use vstd::prelude::*;
use vstd::string::*;

verus! {

/// White space: the characters with the Unicode property `White_Space`.
pub open spec fn is_whitespace(c: char) -> bool {
    ||| ('\u{9}' <= c && c <= '\u{d}')
    ||| c == ' '
    ||| c == '\u{85}'
    ||| c == '\u{a0}'
    ||| c == '\u{1680}'
    ||| ('\u{2000}' <= c && c <= '\u{200a}')
    ||| c == '\u{2028}'
    ||| c == '\u{2029}'
    ||| c == '\u{202f}'
    ||| c == '\u{205f}'
    ||| c == '\u{3000}'
}

/// `s` without its leading white space.
pub open spec fn trim_start(s: Seq<char>) -> Seq<char>
    decreases s.len(),
{
    if s.len() > 0 && is_whitespace(s.first()) {
        trim_start(s.drop_first())
    } else {
        s
    }
}

/// `s` without its trailing white space.
pub open spec fn trim_end(s: Seq<char>) -> Seq<char>
    decreases s.len(),
{
    if s.len() > 0 && is_whitespace(s.last()) {
        trim_end(s.drop_last())
    } else {
        s
    }
}

/// `s` without leading and trailing white space.
pub open spec fn trim(s: Seq<char>) -> Seq<char> {
    trim_end(trim_start(s))
}

/// The index of the first line feed in `text`, or its length if it has none.
pub open spec fn first_newline(text: Seq<char>) -> int
    decreases text.len(),
{
    if text.len() == 0 || text.first() == '\n' {
        0
    } else {
        1 + first_newline(text.drop_first())
    }
}

/// The lines of a text: the pieces between its line feeds, in order. A text
/// with `n` line feeds has `n + 1` lines, some of which may be empty.
pub open spec fn lines(text: Seq<char>) -> Seq<Seq<char>>
    decreases text.len(),
{
    let n = first_newline(text);
    if 0 <= n < text.len() {
        seq![text.take(n)] + lines(text.skip(n + 1))
    } else {
        seq![text]
    }
}

/// Where the last `/`-separated component of `path` starts: just behind its
/// last `/`, or at 0 if it has none.
pub open spec fn last_component_start(path: Seq<char>) -> int
    decreases path.len(),
{
    if path.len() == 0 {
        0
    } else if path.last() == '/' {
        path.len() as int
    } else {
        last_component_start(path.drop_last())
    }
}

/// The final segment of a path: its last `/`-separated component that is
/// neither empty nor a single dot. Empty if the path has no such component.
pub open spec fn final_segment(path: Seq<char>) -> Seq<char>
    decreases path.len(),
{
    let start = last_component_start(path);
    let component = path.skip(start);
    if path.len() == 0 {
        path
    } else if component.len() == 0 || component == seq!['.'] {
        if 0 < start <= path.len() {
            final_segment(path.take(start - 1))
        } else {
            Seq::<char>::empty()
        }
    } else {
        component
    }
}

/// The prefix of a patch file name.
pub open spec fn patch_prefix() -> Seq<char> {
    seq!['p', 'a', 't', 'c', 'h', '-']
}

/// The suffix of a patch file name.
pub open spec fn patch_suffix() -> Seq<char> {
    seq!['.', 'z', 'i', 'p']
}

/// What stands between `patch-` and `.zip` in a file name of that pattern;
/// `None` for a name that does not start and end so. Upper and lower case
/// are different letters.
pub open spec fn version_field(name: Seq<char>) -> Option<Seq<char>> {
    if name.len() >= 10 && name.take(6) == patch_prefix() && name.skip(name.len() - 4)
        == patch_suffix() {
        Some(name.subrange(6, name.len() - 4))
    } else {
        None
    }
}

/// The pattern of a patch file name, said in another way: a name has a
/// version field exactly if it starts with `patch-` and ends with `.zip`.
/// The two cannot overlap, so such a name has at least ten characters.
pub proof fn lemma_version_field_pattern(name: Seq<char>)
    ensures
        version_field(name) is Some <==> patch_prefix().is_prefix_of(name)
            && patch_suffix().is_suffix_of(name),
{
    if patch_prefix().is_prefix_of(name) && patch_suffix().is_suffix_of(name) {
        let head = name.subrange(0, 6);
        let tail = name.subrange(name.len() - 4, name.len() as int);
        assert(head[2] == 't' && head[3] == 'c' && head[4] == 'h' && head[5] == '-');
        assert(tail[0] == '.');
        if name.len() < 10 {
            assert(name[name.len() - 4] == tail[0]);
            assert(name[2] == head[2] && name[3] == head[3] && name[4] == head[4] && name[5]
                == head[5]);
        }
        assert(name.take(6) =~= head);
        assert(name.skip(name.len() - 4) =~= tail);
    }
    if version_field(name) is Some {
        assert(name.subrange(0, 6) =~= name.take(6));
        assert(name.subrange(name.len() - 4, name.len() as int) =~= name.skip(name.len() - 4));
    }
}

/// The characters of a text, for access by index.
pub fn chars_of(text: &str) -> (chars: Vec<char>)
    ensures
        chars@ == text@,
{
    let mut chars: Vec<char> = Vec::new();
    for c in it: text.chars()
        invariant
            chars@ == it.seq().take(it.index() as int),
            it.seq() == text@,
    {
        chars.push(c);
    }
    chars
}

/// Whether `c` is white space.
pub fn is_space(c: char) -> (space: bool)
    ensures
        space == is_whitespace(c),
{
    ('\u{9}' <= c && c <= '\u{d}') || c == ' ' || c == '\u{85}' || c == '\u{a0}' || c
        == '\u{1680}' || ('\u{2000}' <= c && c <= '\u{200a}') || c == '\u{2028}' || c
        == '\u{2029}' || c == '\u{202f}' || c == '\u{205f}' || c == '\u{3000}'
}

/// Skipping `k` white-space characters that are followed by none is `trim_start`.
proof fn lemma_trim_start(s: Seq<char>, k: int)
    requires
        0 <= k <= s.len(),
        forall|i: int| 0 <= i < k ==> is_whitespace(s[i]),
        k == s.len() || !is_whitespace(s[k]),
    ensures
        trim_start(s) == s.skip(k),
    decreases k,
{
    if k == 0 {
        assert(s.skip(0) =~= s);
    } else {
        lemma_trim_start(s.drop_first(), k - 1);
        assert(s.drop_first().skip(k - 1) =~= s.skip(k));
    }
}

/// Dropping `s.len() - k` white-space characters that follow none is `trim_end`.
proof fn lemma_trim_end(s: Seq<char>, k: int)
    requires
        0 <= k <= s.len(),
        forall|i: int| k <= i < s.len() ==> is_whitespace(s[i]),
        k == 0 || !is_whitespace(s[k - 1]),
    ensures
        trim_end(s) == s.take(k),
    decreases s.len() - k,
{
    if k == s.len() {
        assert(s.take(k) =~= s);
    } else {
        lemma_trim_end(s.drop_last(), k);
        assert(s.drop_last().take(k) =~= s.take(k));
    }
}

/// The bounds of the trimmed part of `chars[start..end]`.
pub fn trim_bounds(chars: &Vec<char>, start: usize, end: usize) -> (bounds: (usize, usize))
    requires
        start <= end <= chars.len(),
    ensures
        start <= bounds.0 <= bounds.1 <= end,
        chars@.subrange(bounds.0 as int, bounds.1 as int) == trim(
            chars@.subrange(start as int, end as int),
        ),
{
    let ghost line = chars@.subrange(start as int, end as int);
    let mut a: usize = start;
    while a < end && is_space(chars[a])
        invariant
            start <= a <= end <= chars.len(),
            line == chars@.subrange(start as int, end as int),
            forall|i: int| 0 <= i < a - start ==> is_whitespace(line[i]),
        decreases end - a,
    {
        a = a + 1;
    }
    let ghost rest = line.skip(a - start);
    proof {
        lemma_trim_start(line, a - start);
        assert(rest =~= chars@.subrange(a as int, end as int));
    }
    let mut b: usize = end;
    while b > a && is_space(chars[b - 1])
        invariant
            a <= b <= end <= chars.len(),
            rest == chars@.subrange(a as int, end as int),
            forall|i: int| b - a <= i < rest.len() ==> is_whitespace(rest[i]),
        decreases b - a,
    {
        b = b - 1;
    }
    proof {
        lemma_trim_end(rest, b - a);
        assert(rest.take(b - a) =~= chars@.subrange(a as int, b as int));
    }
    (a, b)
}

/// A run without `/` that starts at 0 or just behind a `/` is the last component.
proof fn lemma_last_component_start(path: Seq<char>, start: int)
    requires
        0 <= start <= path.len(),
        forall|i: int| start <= i < path.len() ==> path[i] != '/',
        start == 0 || path[start - 1] == '/',
    ensures
        last_component_start(path) == start,
    decreases path.len() - start,
{
    if path.len() > start {
        lemma_last_component_start(path.drop_last(), start);
    }
}

/// The bounds of the final segment of the path `chars[start..end]`.
pub fn final_segment_bounds(chars: &Vec<char>, start: usize, end: usize) -> (bounds: (
    usize,
    usize,
))
    requires
        start <= end <= chars.len(),
    ensures
        start <= bounds.0 <= bounds.1 <= end,
        chars@.subrange(bounds.0 as int, bounds.1 as int) == final_segment(
            chars@.subrange(start as int, end as int),
        ),
{
    let mut e: usize = end;
    loop
        invariant
            start <= e <= end <= chars.len(),
            final_segment(chars@.subrange(start as int, e as int)) == final_segment(
                chars@.subrange(start as int, end as int),
            ),
        decreases e,
    {
        let ghost path = chars@.subrange(start as int, e as int);
        if e == start {
            assert(chars@.subrange(start as int, start as int) =~= path);
            return (start, start);
        }
        let mut s: usize = e;
        while s > start && chars[s - 1] != '/'
            invariant
                start <= s <= e <= chars.len(),
                path == chars@.subrange(start as int, e as int),
                forall|i: int| s - start <= i < path.len() ==> path[i] != '/',
            decreases s,
        {
            s = s - 1;
        }
        proof {
            lemma_last_component_start(path, s - start);
            assert(path.skip(s - start) =~= chars@.subrange(s as int, e as int));
        }
        let ghost component = chars@.subrange(s as int, e as int);
        if s == e || (e - s == 1 && chars[s] == '.') {
            assert(component.len() == 0 || component =~= seq!['.']);
            if s == start {
                assert(chars@.subrange(start as int, start as int) =~= Seq::<char>::empty());
                return (start, start);
            }
            assert(path.take(s - start - 1) =~= chars@.subrange(start as int, s - 1));
            e = s - 1;
        } else {
            assert(component.len() != 0);
            assert(component != seq!['.']) by {
                if component.len() == 1 {
                    assert(component[0] != seq!['.'][0]);
                }
            }
            return (s, e);
        }
    }
}

/// The bounds of the version field of the file name `chars[start..end]`, if
/// the name has the pattern `patch-<version>.zip`.
pub fn version_field_bounds(chars: &Vec<char>, start: usize, end: usize) -> (bounds: Option<
    (usize, usize),
>)
    requires
        start <= end <= chars.len(),
    ensures
        match version_field(chars@.subrange(start as int, end as int)) {
            Some(field) => bounds matches Some((from, to)) && start <= from <= to <= end
                && chars@.subrange(from as int, to as int) == field,
            None => bounds is None,
        },
{
    let ghost name = chars@.subrange(start as int, end as int);
    if end - start < 10 {
        return None;
    }
    let starts = chars[start] == 'p' && chars[start + 1] == 'a' && chars[start + 2] == 't'
        && chars[start + 3] == 'c' && chars[start + 4] == 'h' && chars[start + 5] == '-';
    let ends = chars[end - 4] == '.' && chars[end - 3] == 'z' && chars[end - 2] == 'i' && chars[end
        - 1] == 'p';
    proof {
        let head = name.take(6);
        let tail = name.skip(name.len() - 4);
        if starts {
            assert(head =~= patch_prefix());
        } else {
            assert(head[0] == name[0] && head[1] == name[1] && head[2] == name[2] && head[3]
                == name[3] && head[4] == name[4] && head[5] == name[5]);
        }
        if ends {
            assert(tail =~= patch_suffix());
        } else {
            assert(tail[0] == name[name.len() - 4] && tail[1] == name[name.len() - 3] && tail[2]
                == name[name.len() - 2] && tail[3] == name[name.len() - 1]);
        }
    }
    if starts && ends {
        assert(name.subrange(6, name.len() - 4) =~= chars@.subrange(start + 6, end - 4));
        Some((start + 6, end - 4))
    } else {
        None
    }
}

} // verus!
