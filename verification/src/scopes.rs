use vstd::prelude::*;

verus! {

/// `s.split(sep)`: the pieces of `s` between the separators, in order;
/// one more piece than there are separators, empty pieces included.
pub open spec fn split_on(s: Seq<char>, sep: char) -> Seq<Seq<char>>
    decreases s.len(),
{
    if s.len() == 0 {
        seq![Seq::<char>::empty()]
    } else {
        let pieces = split_on(s.drop_last(), sep);
        if s.last() == sep {
            pieces.push(Seq::<char>::empty())
        } else {
            pieces.update(pieces.len() - 1, pieces.last().push(s.last()))
        }
    }
}

/// The pieces joined again, with `sep` between each two.
pub open spec fn join_with(pieces: Seq<Seq<char>>, sep: char) -> Seq<char>
    decreases pieces.len(),
{
    if pieces.len() == 0 {
        Seq::empty()
    } else if pieces.len() == 1 {
        pieces[0]
    } else {
        join_with(pieces.drop_last(), sep).push(sep) + pieces.last()
    }
}

/// The pieces of every text, in order: `texts.iter().flat_map(|t| t.split(sep))`.
pub open spec fn split_all(texts: Seq<Seq<char>>, sep: char) -> Seq<Seq<char>>
    decreases texts.len(),
{
    if texts.len() == 0 {
        Seq::empty()
    } else {
        split_all(texts.drop_last(), sep) + split_on(texts.last(), sep)
    }
}

/// Splitting always gives at least one piece.
pub proof fn lemma_split_nonempty(s: Seq<char>, sep: char)
    ensures
        split_on(s, sep).len() >= 1,
    decreases s.len(),
{
    if s.len() > 0 {
        lemma_split_nonempty(s.drop_last(), sep);
    }
}

/// Splitting a text and joining the pieces with the same separator gives
/// the text back.
pub proof fn lemma_split_join(s: Seq<char>, sep: char)
    ensures
        join_with(split_on(s, sep), sep) == s,
    decreases s.len(),
{
    if s.len() == 0 {
        return;
    }
    let init = s.drop_last();
    let c = s.last();
    let pieces = split_on(init, sep);
    lemma_split_nonempty(init, sep);
    lemma_split_join(init, sep);
    let n = pieces.len();
    if c == sep {
        let after = pieces.push(Seq::<char>::empty());
        assert(after.drop_last() =~= pieces);
        assert(join_with(after, sep) =~= init.push(sep));
    } else {
        let after = pieces.update(n - 1, pieces.last().push(c));
        if n == 1 {
            assert(join_with(after, sep) =~= pieces[0].push(c));
        } else {
            assert(after.drop_last() =~= pieces.drop_last());
            assert(join_with(after, sep) =~= (join_with(pieces.drop_last(), sep).push(sep)
                + pieces.last()).push(c));
        }
    }
    assert(init.push(c) =~= s);
}

fn piece(s: &str, from: usize, to: usize) -> (r: String)
    requires
        from <= to <= s@.len(),
    ensures
        r@ == s@.subrange(from as int, to as int),
{
    s.substring_char(from, to).to_owned()
}

/// `s.split(sep)`, each piece as an owned text.
pub fn split_text(s: &str, sep: char) -> (r: Vec<String>)
    ensures
        r.deep_view() == split_on(s@, sep),
{
    let n = s.unicode_len();
    let mut done: Vec<String> = Vec::new();
    let mut start: usize = 0;
    let mut i: usize = 0;
    assert(s@.take(0) =~= Seq::<char>::empty());
    while i < n
        invariant
            n == s@.len(),
            start <= i <= n,
            split_on(s@.take(i as int), sep) == done.deep_view().push(s@.subrange(start as int, i as int)),
        decreases n - i,
    {
        let c = s.get_char(i);
        let ghost before = done.deep_view();
        assert(s@.take(i + 1).drop_last() =~= s@.take(i as int));
        assert(s@.take(i + 1).last() == c);
        if c == sep {
            let p = piece(s, start, i);
            done.push(p);
            assert(done.deep_view() =~= before.push(s@.subrange(start as int, i as int)));
            start = i + 1;
            assert(s@.subrange(start as int, i + 1) =~= Seq::<char>::empty());
        } else {
            assert(s@.subrange(start as int, i + 1) =~= s@.subrange(start as int, i as int).push(c));
            assert(before.push(s@.subrange(start as int, i as int)).update(
                before.len() as int,
                s@.subrange(start as int, i + 1),
            ) =~= before.push(s@.subrange(start as int, i + 1)));
        }
        i = i + 1;
    }
    let last = piece(s, start, n);
    let ghost before = done.deep_view();
    done.push(last);
    assert(done.deep_view() =~= before.push(s@.subrange(start as int, n as int)));
    assert(s@.take(n as int) =~= s@);
    done
}

/// The scopes a token grants, with scopes written as one comma-separated
/// text split into their parts: every scope split at `,`, in order.
pub fn split_scopes(scopes: &Vec<String>) -> (r: Vec<String>)
    ensures
        r.deep_view() == split_all(scopes.deep_view(), ','),
{
    let n = scopes.len();
    let mut all: Vec<String> = Vec::new();
    let mut i: usize = 0;
    while i < n
        invariant
            n == scopes@.len(),
            i <= n,
            all.deep_view() == split_all(scopes.deep_view().take(i as int), ','),
        decreases n - i,
    {
        let mut pieces = split_text(scopes[i].as_str(), ',');
        let ghost before = all.deep_view();
        let ghost added = pieces.deep_view();
        all.append(&mut pieces);
        assert(all.deep_view() =~= before + added);
        assert(scopes.deep_view().take(i + 1).drop_last() =~= scopes.deep_view().take(i as int));
        i = i + 1;
    }
    assert(scopes.deep_view().take(n as int) =~= scopes.deep_view());
    all
}

} // verus!
