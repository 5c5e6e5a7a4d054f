use vstd::prelude::*;
use crate::search::{first_in, is_first_in, lemma_first_in_absent, lemma_first_in_found};

verus! {

/// A character that a header value may hold when read as text:
/// a visible ASCII character or a horizontal tab.
pub open spec fn is_visible_ascii(c: char) -> bool {
    c == '\t' || (' ' <= c && c <= '~')
}

pub open spec fn all_visible_ascii(s: Seq<char>) -> bool {
    forall|i: int| 0 <= i < s.len() ==> is_visible_ascii(#[trigger] s[i])
}

pub open spec fn semicolon_at(s: Seq<char>) -> spec_fn(int) -> bool {
    |j: int| s[j] == ';'
}

/// Where the first `;`-separated segment of `s` ends.
pub open spec fn segment_end(s: Seq<char>) -> int {
    match first_in(0, s.len() as int, semicolon_at(s)) {
        Some(k) => k,
        None => s.len() as int,
    }
}

/// The text before the first `;` of `s` (all of `s` when it has none).
pub open spec fn first_segment(s: Seq<char>) -> Seq<char> {
    s.subrange(0, segment_end(s))
}

/// The target of a `Link` header value: the first `;`-separated segment,
/// which must be written `<target>`. There is none when the value is
/// empty, holds a character that is not visible ASCII, or its first
/// segment is not enclosed in angle brackets.
pub open spec fn link_target(s: Seq<char>) -> Option<Seq<char>> {
    let seg = first_segment(s);
    if s.len() > 0 && all_visible_ascii(s) && seg.len() >= 2 && seg[0] == '<' && seg[seg.len()
        - 1] == '>' {
        Some(seg.subrange(1, seg.len() - 1))
    } else {
        None
    }
}

fn visible_ascii(c: char) -> (r: bool)
    ensures
        r == is_visible_ascii(c),
{
    c == '\t' || (' ' <= c && c <= '~')
}

/// The target of a `Link` header value, if it has one.
fn read_link_target<'a>(link_header_value: &'a str) -> (target: Option<&'a str>)
    ensures
        target is None <==> link_target(link_header_value@) is None,
        target matches Some(t) ==> link_target(link_header_value@) == Some(t@),
{
    let s = link_header_value;
    let n = s.unicode_len();
    if n == 0 {
        return None;
    }
    let mut i: usize = 0;
    let mut end: usize = n;
    let mut found = false;
    while i < n
        invariant
            s@ == link_header_value@,
            n == s@.len(),
            i <= n,
            forall|j: int| 0 <= j < i ==> is_visible_ascii(#[trigger] s@[j]),
            found ==> end < i && is_first_in(0, n as int, semicolon_at(s@), end as int),
            !found ==> end == n && forall|j: int| 0 <= j < i ==> s@[j] != ';',
        decreases n - i,
    {
        let c = s.get_char(i);
        if !visible_ascii(c) {
            assert(!is_visible_ascii(s@[i as int]));
            return None;
        }
        if c == ';' && !found {
            end = i;
            found = true;
            assert(is_first_in(0, n as int, semicolon_at(s@), end as int));
        }
        i = i + 1;
    }
    proof {
        if found {
            lemma_first_in_found(0, n as int, semicolon_at(s@), end as int);
        } else {
            assert forall|j: int| 0 <= j < n implies !#[trigger] semicolon_at(s@)(j) by {}
            lemma_first_in_absent(0, n as int, semicolon_at(s@));
        }
        assert(segment_end(s@) == end);
    }
    if end >= 2 && s.get_char(0) == '<' && s.get_char(end - 1) == '>' {
        let t = s.substring_char(1, end - 1);
        assert(t@ =~= first_segment(s@).subrange(1, first_segment(s@).len() - 1));
        Some(t)
    } else {
        None
    }
}

/// Whether a `Link` header value names a target (see `link_target`).
pub fn has_link_target(link_header_value: &str) -> (r: bool)
    ensures
        r == link_target(link_header_value@) is Some,
{
    read_link_target(link_header_value).is_some()
}

/// Reads the next-page address out of a `Link` header value such as
/// `<https://example.com/answers.json?page=2>; rel="next"`: the text inside
/// the angle brackets of its first `;`-separated segment.
pub fn extract_link_header<'a>(link_header_value: &'a str) -> (target: &'a str)
    requires
        link_target(link_header_value@) is Some,
    ensures
        target@ == link_target(link_header_value@)->0,
{
    match read_link_target(link_header_value) {
        Some(t) => t,
        None => link_header_value,
    }
}

/// Writing a target in angle brackets and reading it back gives the
/// target again, whatever parameters follow it after a `;`: for a target
/// of visible ASCII characters without `;`.
pub proof fn lemma_link_round_trip(target: Seq<char>, params: Seq<char>)
    requires
        all_visible_ascii(target),
        forall|i: int| 0 <= i < target.len() ==> #[trigger] target[i] != ';',
        all_visible_ascii(params),
        params.len() == 0 || params[0] == ';',
    ensures
        link_target(seq!['<'] + target + seq!['>'] + params) == Some(target),
{
    let s = seq!['<'] + target + seq!['>'] + params;
    let k: int = target.len() as int + 2;
    assert forall|j: int| 0 <= j < k implies !#[trigger] semicolon_at(s)(j) by {
        if 1 <= j < k - 1 {
            assert(s[j] == target[j - 1]);
        }
    }
    if params.len() == 0 {
        lemma_first_in_absent(0, s.len() as int, semicolon_at(s));
    } else {
        assert(s[k] == params[0]);
        assert(is_first_in(0, s.len() as int, semicolon_at(s), k));
        lemma_first_in_found(0, s.len() as int, semicolon_at(s), k);
    }
    assert(segment_end(s) == k);
    assert forall|i: int| 0 <= i < s.len() implies is_visible_ascii(#[trigger] s[i]) by {
        if 1 <= i < k - 1 {
            assert(s[i] == target[i - 1]);
        } else if i >= k {
            assert(s[i] == params[i - k]);
        }
    }
    assert(first_segment(s).subrange(1, first_segment(s).len() - 1) =~= target);
}

} // verus!
