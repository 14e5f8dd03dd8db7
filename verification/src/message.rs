//! Texts composed in buffers of fixed capacity. A piece that does not fit is
//! left out whole, and so is everything behind it.

use vstd::prelude::*;
use vstd::utf8::encode_utf8;

verus! {

/// How much room a text takes.
pub open spec fn size(text: Seq<char>) -> nat {
    encode_utf8(text).len()
}

/// What a buffer of `capacity` bytes holds after `pieces` were appended to
/// `text` one by one, up to the first that does not fit.
pub open spec fn fitted(text: Seq<char>, pieces: Seq<Seq<char>>, capacity: nat) -> Seq<char>
    decreases pieces.len(),
{
    if pieces.len() == 0 || size(text) + size(pieces[0]) > capacity {
        text
    } else {
        fitted(text + pieces[0], pieces.skip(1), capacity)
    }
}

/// Appends to a `heapless::String` of capacity `N` that holds `text`, with
/// `heapless::String::push_str`. The call takes the whole piece if the bytes
/// of both fit in `N`, and otherwise fails and takes nothing.
#[verifier::external_body]
fn push_str<const N: usize>(text: &str, piece: &str) -> (r: Option<String>)
    requires
        size(text@) <= N,
    ensures
        r is Some <==> size(text@) + size(piece@) <= N,
        r matches Some(both) ==> both@ == text@ + piece@,
{
    let mut buffer: heapless::String<N> = heapless::String::try_from(text).ok()?;
    buffer.push_str(piece).ok()?;
    Some(String::from(buffer.as_str()))
}

/// Composes a text of `pieces` in a buffer of `N` bytes, behind `text`.
pub fn compose<const N: usize>(text: String, pieces: &Vec<String>) -> (r: String)
    requires
        size(text@) <= N,
    ensures
        r@ == fitted(text@, piece_views(pieces@), N as nat),
        size(r@) <= N,
{
    let mut have: String = text;
    let mut i: usize = 0;
    let ghost all = piece_views(pieces@);
    assert(all.skip(0) =~= all);
    while i < pieces.len()
        invariant
            i <= pieces.len(),
            all == piece_views(pieces@),
            size(have@) <= N,
            fitted(have@, all.skip(i as int), N as nat) == fitted(text@, all, N as nat),
        decreases pieces.len() - i,
    {
        assert(all.skip(i as int)[0] == pieces@[i as int]@);
        assert(all.skip(i as int).skip(1) =~= all.skip(i + 1));
        match push_str::<N>(have.as_str(), pieces[i].as_str()) {
            Some(both) => {
                proof {
                    lemma_size_concat(have@, pieces@[i as int]@);
                }
                have = both;
            },
            None => {
                return have;
            },
        }
        i += 1;
    }
    assert(all.skip(i as int) =~= Seq::<Seq<char>>::empty());
    have
}

/// The encoding of a concatenation is the concatenation of the encodings.
pub proof fn lemma_encode_concat(a: Seq<char>, b: Seq<char>)
    ensures
        encode_utf8(a + b) == encode_utf8(a) + encode_utf8(b),
    decreases a.len(),
{
    if a.len() == 0 {
        assert(a + b =~= b);
        assert(encode_utf8(a) + encode_utf8(b) =~= encode_utf8(b));
    } else {
        lemma_encode_concat(a.drop_first(), b);
        assert((a + b).drop_first() =~= a.drop_first() + b);
        assert(encode_utf8(a + b) =~= encode_utf8(a) + encode_utf8(b));
    }
}

pub proof fn lemma_size_concat(a: Seq<char>, b: Seq<char>)
    ensures
        size(a + b) == size(a) + size(b),
{
    lemma_encode_concat(a, b);
}

/// All of `pieces`, one behind the other.
pub open spec fn joined(pieces: Seq<Seq<char>>) -> Seq<char>
    decreases pieces.len(),
{
    if pieces.len() == 0 {
        Seq::empty()
    } else {
        pieces[0] + joined(pieces.skip(1))
    }
}

/// Where there is room for everything, nothing is left out.
pub proof fn fitted_is_whole(text: Seq<char>, pieces: Seq<Seq<char>>, capacity: nat)
    requires
        size(text) + size(joined(pieces)) <= capacity,
    ensures
        fitted(text, pieces, capacity) == text + joined(pieces),
    decreases pieces.len(),
{
    if pieces.len() == 0 {
        assert(text + joined(pieces) =~= text);
    } else {
        lemma_size_concat(pieces[0], joined(pieces.skip(1)));
        lemma_size_concat(text, pieces[0]);
        fitted_is_whole(text + pieces[0], pieces.skip(1), capacity);
        assert(text + pieces[0] + joined(pieces.skip(1)) =~= text + joined(pieces));
    }
}

/// The room that the first `n` of `pieces` take.
pub open spec fn total_size(pieces: Seq<Seq<char>>, n: int) -> nat
    decreases n,
{
    if n <= 0 {
        0
    } else {
        total_size(pieces, n - 1) + size(pieces[n - 1])
    }
}

/// Joining one more piece appends it.
pub proof fn lemma_joined_push(pieces: Seq<Seq<char>>, piece: Seq<char>)
    ensures
        joined(pieces.push(piece)) == joined(pieces) + piece,
    decreases pieces.len(),
{
    let more = pieces.push(piece);
    if pieces.len() == 0 {
        assert(more.skip(1) =~= Seq::<Seq<char>>::empty());
        assert(joined(more.skip(1)) =~= Seq::<char>::empty());
        assert(joined(more) =~= piece);
        assert(joined(pieces) + piece =~= piece);
    } else {
        lemma_joined_push(pieces.skip(1), piece);
        assert(more.skip(1) =~= pieces.skip(1).push(piece));
        assert(joined(more) =~= joined(pieces) + piece);
    }
}

/// Pieces take as much room joined as one by one.
pub proof fn lemma_joined_size(pieces: Seq<Seq<char>>, n: int)
    requires
        0 <= n <= pieces.len(),
    ensures
        size(joined(pieces.take(n))) == total_size(pieces, n),
    decreases n,
{
    if n == 0 {
        assert(pieces.take(0) =~= Seq::<Seq<char>>::empty());
    } else {
        lemma_joined_size(pieces, n - 1);
        assert(pieces.take(n) =~= pieces.take(n - 1).push(pieces[n - 1]));
        lemma_joined_push(pieces.take(n - 1), pieces[n - 1]);
        lemma_size_concat(joined(pieces.take(n - 1)), pieces[n - 1]);
    }
}

/// Where the pieces of a message take no more room than its buffer has, the
/// message is all of them, one behind the other.
pub proof fn message_is_whole(pieces: Seq<Seq<char>>, capacity: nat)
    requires
        total_size(pieces, pieces.len() as int) <= capacity,
    ensures
        fitted(Seq::empty(), pieces, capacity) == joined(pieces),
        size(joined(pieces)) == total_size(pieces, pieces.len() as int),
{
    assert(pieces.take(pieces.len() as int) =~= pieces);
    lemma_joined_size(pieces, pieces.len() as int);
    fitted_is_whole(Seq::empty(), pieces, capacity);
    assert(Seq::<char>::empty() + joined(pieces) =~= joined(pieces));
}

pub open spec fn piece_views(v: Seq<String>) -> Seq<Seq<char>> {
    v.map_values(|p: String| p@)
}

/// Three pieces one behind the other.
pub proof fn lemma_joined_three(a: Seq<char>, b: Seq<char>, c: Seq<char>)
    ensures
        joined(seq![a, b, c]) == a + b + c,
{
    let none = Seq::<Seq<char>>::empty();
    lemma_joined_push(none, a);
    lemma_joined_push(none.push(a), b);
    lemma_joined_push(none.push(a).push(b), c);
    assert(seq![a, b, c] =~= none.push(a).push(b).push(c));
    assert(joined(seq![a, b, c]) =~= a + b + c);
}

/// Five pieces one behind the other.
pub proof fn lemma_joined_five(
    a: Seq<char>,
    b: Seq<char>,
    c: Seq<char>,
    d: Seq<char>,
    e: Seq<char>,
)
    ensures
        joined(seq![a, b, c, d, e]) == a + b + c + d + e,
{
    lemma_joined_three(a, b, c);
    lemma_joined_push(seq![a, b, c], d);
    lemma_joined_push(seq![a, b, c].push(d), e);
    assert(seq![a, b, c, d, e] =~= seq![a, b, c].push(d).push(e));
    assert(joined(seq![a, b, c, d, e]) =~= a + b + c + d + e);
}

/// A message that is too long for its buffer ends before the first piece that
/// does not fit, and holds everything before it.
pub proof fn messages_end_where_they_must(
    text: Seq<char>,
    pieces: Seq<Seq<char>>,
    k: int,
    capacity: nat,
)
    requires
        0 <= k < pieces.len(),
        size(text + joined(pieces.take(k))) <= capacity,
        size(text + joined(pieces.take(k))) + size(pieces[k]) > capacity,
    ensures
        fitted(text, pieces, capacity) == text + joined(pieces.take(k)),
    decreases k,
{
    if k == 0 {
        assert(pieces.take(0) =~= Seq::<Seq<char>>::empty());
        assert(text + joined(pieces.take(0)) =~= text);
    } else {
        let rest = pieces.skip(1);
        assert(pieces.take(k).skip(1) =~= rest.take(k - 1));
        assert(pieces.take(k)[0] == pieces[0]);
        assert(text + pieces[0] + joined(rest.take(k - 1)) =~= text + joined(pieces.take(k)));
        lemma_size_concat(text, pieces[0]);
        lemma_size_concat(text + pieces[0], joined(rest.take(k - 1)));
        messages_end_where_they_must(text + pieces[0], rest, k - 1, capacity);
    }
}

} // verus!
