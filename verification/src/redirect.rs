use vstd::prelude::*;
use crate::search::{first_in, lemma_first_in_absent, lemma_first_in_found, text_equals};

verus! {

/// Characters with the Unicode `White_Space` property, those at which
/// `str::split_whitespace` splits.
pub open spec fn is_white_space(c: char) -> bool {
    ||| ('\u{9}' <= c && c <= '\u{d}')
    ||| c == ' '
    ||| c == '\u{85}'
    ||| c == '\u{a0}'
    ||| c == '\u{1680}'
    ||| ('\u{2000}' <= c && c <= '\u{200a}')
    ||| c == '\u{2028}'
    ||| c == '\u{2029}'
    ||| c == '\u{202f}'
    ||| c == '\u{205f}'
    ||| c == '\u{3000}'
}

fn white_space(c: char) -> (r: bool)
    ensures
        r == is_white_space(c),
{
    ('\u{9}' <= c && c <= '\u{d}') || c == ' ' || c == '\u{85}' || c == '\u{a0}' || c == '\u{1680}'
        || ('\u{2000}' <= c && c <= '\u{200a}') || c == '\u{2028}' || c == '\u{2029}' || c
        == '\u{202f}' || c == '\u{205f}' || c == '\u{3000}'
}

/// Positions of `s` that are white space (`white`) or not (`!white`).
pub open spec fn class_at(s: Seq<char>, white: bool) -> spec_fn(int) -> bool {
    |j: int| is_white_space(s[j]) == white
}

/// The first position at or after `from` of the given class, or the end.
pub open spec fn next_of_class(s: Seq<char>, from: int, white: bool) -> int {
    match first_in(from, s.len() as int, class_at(s, white)) {
        Some(k) => k,
        None => s.len() as int,
    }
}

/// `s.split_whitespace().nth(1)`: the second maximal run of characters
/// that are not white space.
pub open spec fn second_word(s: Seq<char>) -> Option<Seq<char>> {
    let a = next_of_class(s, 0, false);
    let gap = next_of_class(s, a, true);
    let b = next_of_class(s, gap, false);
    if b < s.len() {
        Some(s.subrange(b, next_of_class(s, b, true)))
    } else {
        None
    }
}

fn scan(s: &str, n: usize, from: usize, white: bool) -> (k: usize)
    requires
        n == s@.len(),
        from <= n,
    ensures
        k as int == next_of_class(s@, from as int, white),
        from <= k <= n,
{
    let mut i = from;
    while i < n
        invariant
            n == s@.len(),
            from <= i <= n,
            forall|j: int| from <= j < i ==> !#[trigger] class_at(s@, white)(j),
        decreases n - i,
    {
        if white_space(s.get_char(i)) == white {
            proof {
                lemma_first_in_found(from as int, n as int, class_at(s@, white), i as int);
            }
            return i;
        }
        i = i + 1;
    }
    proof {
        lemma_first_in_absent(from as int, n as int, class_at(s@, white));
    }
    n
}

/// The request target of an HTTP request line such as
/// `GET /?code=abc&state=xyz HTTP/1.1`: its second word.
pub fn request_target<'a>(request_line: &'a str) -> (r: Option<&'a str>)
    ensures
        r is None <==> second_word(request_line@) is None,
        r matches Some(t) ==> second_word(request_line@) == Some(t@),
{
    let n = request_line.unicode_len();
    let a = scan(request_line, n, 0, false);
    let gap = scan(request_line, n, a, true);
    let b = scan(request_line, n, gap, false);
    if b < n {
        let e = scan(request_line, n, b, true);
        Some(request_line.substring_char(b, e))
    } else {
        None
    }
}

/// The address that a request target names on this machine.
pub open spec fn local_address(target: Seq<char>) -> Seq<char> {
    "http://localhost"@ + target
}

fn localhost_address(target: &str) -> (r: String)
    ensures
        r@ == local_address(target@),
{
    let mut address = "http://localhost".to_owned();
    address.append(target);
    address
}

/// What `url::Url::parse` followed by `Url::query_pairs` gives for the text
/// of an address: nothing when the text does not parse as an address,
/// else the name and value of each pair of its query, decoded, in order.
pub uninterp spec fn url_query_pairs(address: Seq<char>) -> Option<Seq<(Seq<char>, Seq<char>)>>;

/// Calls `url::Url::parse` on the address and, when it parses, collects
/// `Url::query_pairs` as owned texts. Claimed: the result is
/// `url_query_pairs` of the address.
#[verifier::external_body]
fn query_pairs(address: &str) -> (r: Option<Vec<(String, String)>>)
    ensures
        r.deep_view() == url_query_pairs(address@),
{
    match url::Url::parse(address) {
        Ok(parsed) => {
            let mut pairs = Vec::new();
            for (name, value) in parsed.query_pairs() {
                pairs.push((name.into_owned(), value.into_owned()));
            }
            Some(pairs)
        },
        Err(_) => None,
    }
}

pub open spec fn name_at(pairs: Seq<(Seq<char>, Seq<char>)>, name: Seq<char>) -> spec_fn(
    int,
) -> bool {
    |i: int| pairs[i].0 == name
}

/// The value of the first pair with the given name.
pub open spec fn query_value(pairs: Seq<(Seq<char>, Seq<char>)>, name: Seq<char>) -> Option<
    Seq<char>,
> {
    match first_in(0, pairs.len() as int, name_at(pairs, name)) {
        Some(i) => Some(pairs[i].1),
        None => None,
    }
}

/// The value of the first pair named `name`.
pub fn find_query_value(pairs: &Vec<(String, String)>, name: &str) -> (r: Option<String>)
    ensures
        r.deep_view() == query_value(pairs.deep_view(), name@),
{
    let n = pairs.len();
    let mut i: usize = 0;
    while i < n
        invariant
            n == pairs@.len(),
            i <= n,
            forall|j: int| 0 <= j < i ==> !#[trigger] name_at(pairs.deep_view(), name@)(j),
        decreases n - i,
    {
        if text_equals(pairs[i].0.as_str(), name) {
            proof {
                lemma_first_in_found(0, n as int, name_at(pairs.deep_view(), name@), i as int);
            }
            return Some(pairs[i].1.clone());
        }
        i = i + 1;
    }
    proof {
        lemma_first_in_absent(0, n as int, name_at(pairs.deep_view(), name@));
    }
    None
}

/// Why the redirect that ends the authorization could not be read.
#[derive(PartialEq, Eq, Structural, Clone, Copy, Debug)]
pub enum RedirectError {
    /// The request line has no request target.
    NoRequestTarget,
    /// The target does not make an address.
    InvalidAddress,
    /// The query has no `code`.
    NoCode,
    /// The query has no `state`.
    NoState,
}

/// The authorization code and the state that a redirect's query carries,
/// from the pairs of the query (none when the address did not parse).
/// The code is looked for first.
pub open spec fn code_and_state_of(pairs: Option<Seq<(Seq<char>, Seq<char>)>>) -> Result<
    (Seq<char>, Seq<char>),
    RedirectError,
> {
    match pairs {
        None => Err(RedirectError::InvalidAddress),
        Some(p) => match query_value(p, "code"@) {
            None => Err(RedirectError::NoCode),
            Some(code) => match query_value(p, "state"@) {
                None => Err(RedirectError::NoState),
                Some(state) => Ok((code, state)),
            },
        },
    }
}

/// Picks the `code` and `state` out of the pairs of a redirect's query.
pub fn code_and_state(pairs: &Option<Vec<(String, String)>>) -> (r: Result<
    (String, String),
    RedirectError,
>)
    ensures
        r matches Ok((c, s)) ==> code_and_state_of(pairs.deep_view()) == Ok::<
            (Seq<char>, Seq<char>),
            RedirectError,
        >((c@, s@)),
        r matches Err(e) ==> code_and_state_of(pairs.deep_view()) == Err::<
            (Seq<char>, Seq<char>),
            RedirectError,
        >(e),
{
    match pairs {
        None => Err(RedirectError::InvalidAddress),
        Some(p) => match find_query_value(p, "code") {
            None => Err(RedirectError::NoCode),
            Some(code) => match find_query_value(p, "state") {
                None => Err(RedirectError::NoState),
                Some(state) => Ok((code, state)),
            },
        },
    }
}

/// Reads the authorization code and state out of the request line of the
/// redirect: the request target, taken as an address on `localhost`, is
/// parsed and its query searched.
pub fn read_redirect(request_line: &str) -> (r: Result<(String, String), RedirectError>)
    ensures
        second_word(request_line@) is None ==> r == Err::<(String, String), RedirectError>(
            RedirectError::NoRequestTarget,
        ),
        second_word(request_line@) matches Some(t) ==> {
            &&& r matches Ok((c, s)) ==> code_and_state_of(url_query_pairs(local_address(t)))
                == Ok::<(Seq<char>, Seq<char>), RedirectError>((c@, s@))
            &&& r matches Err(e) ==> code_and_state_of(url_query_pairs(local_address(t))) == Err::<
                (Seq<char>, Seq<char>),
                RedirectError,
            >(e)
        },
{
    match request_target(request_line) {
        None => Err(RedirectError::NoRequestTarget),
        Some(target) => {
            let address = localhost_address(target);
            let pairs = query_pairs(address.as_str());
            code_and_state(&pairs)
        },
    }
}

} // verus!
