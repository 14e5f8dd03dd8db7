//! The version handshake: the host asks a board for its version and finds it
//! in what comes back.

use crate::text::{chars_of, is_digit, same};
use vstd::prelude::*;
use vstd::utf8::{decode_utf8, valid_utf8};

verus! {

/// How many bytes of a reply are enough.
pub const ENOUGH: usize = 4096;

/// How many characters of a reply an error quotes.
pub const EXCERPT: usize = 160;

/// The characters that a token is made of.
pub open spec fn in_token(c: char) -> bool {
    ('0' <= c && c <= '9') || ('a' <= c && c <= 'z') || ('A' <= c && c <= 'Z') || c == '.'
}

/// Length of the token at the front of `s`.
pub open spec fn token_len(s: Seq<char>) -> nat
    decreases s.len(),
{
    if s.len() == 0 || !in_token(s[0]) {
        0
    } else {
        1 + token_len(s.skip(1))
    }
}

/// Three numbers with a dot between each two.
pub open spec fn is_version(s: Seq<char>) -> bool {
    exists|i: int, j: int| #[trigger] dotted(s, i, j)
}

/// `s` is digits, but for the dots at `i` and `j`, with digits on both sides
/// of each dot.
pub open spec fn dotted(s: Seq<char>, i: int, j: int) -> bool {
    &&& 0 < i
    &&& i + 1 < j
    &&& j + 1 < s.len()
    &&& s[i] == '.'
    &&& s[j] == '.'
    &&& forall|k: int| 0 <= k < s.len() && k != i && k != j ==> is_digit(#[trigger] s[k])
}

/// The token is a `v` and a version.
pub open spec fn names_version(token: Seq<char>) -> bool {
    token.len() > 0 && token[0] == 'v' && is_version(token.skip(1))
}

/// The version in the first token of `s` that names one.
pub open spec fn version_in(s: Seq<char>) -> Option<Seq<char>>
    decreases s.len(),
    via version_in_decreases
{
    if s.len() == 0 {
        None
    } else if !in_token(s[0]) {
        version_in(s.skip(1))
    } else {
        let n = token_len(s) as int;
        if names_version(s.take(n)) {
            Some(s.take(n).skip(1))
        } else {
            version_in(s.skip(n))
        }
    }
}

#[via_fn]
proof fn version_in_decreases(s: Seq<char>) {
    lemma_token_len(s);
}

pub proof fn lemma_token_len(s: Seq<char>)
    ensures
        token_len(s) <= s.len(),
        s.len() > 0 && in_token(s[0]) ==> token_len(s) > 0,
        forall|i: int| 0 <= i < token_len(s) ==> in_token(#[trigger] s[i]),
        token_len(s) < s.len() ==> !in_token(s[token_len(s) as int]),
    decreases s.len(),
{
    if s.len() > 0 && in_token(s[0]) {
        lemma_token_len(s.skip(1));
        assert forall|i: int| 0 <= i < token_len(s) implies in_token(#[trigger] s[i]) by {
            if i > 0 {
                assert(s[i] == s.skip(1)[i - 1]);
            }
        }
        if token_len(s) < s.len() {
            assert(s[token_len(s) as int] == s.skip(1)[token_len(s.skip(1)) as int]);
        }
    }
}

fn is_token_char(c: char) -> (r: bool)
    ensures
        r == in_token(c),
{
    ('0' <= c && c <= '9') || ('a' <= c && c <= 'z') || ('A' <= c && c <= 'Z') || c == '.'
}

/// Whether the characters from `start` up to `end` are a version.
fn spells_version(s: &Vec<char>, start: usize, end: usize) -> (r: bool)
    requires
        start <= end <= s@.len(),
    ensures
        r == is_version(s@.subrange(start as int, end as int)),
{
    let ghost t = s@.subrange(start as int, end as int);
    let mut dots: usize = 0;
    let mut first: usize = 0;
    let mut second: usize = 0;
    let mut i: usize = start;
    while i < end
        invariant
            start <= i <= end <= s@.len(),
            t == s@.subrange(start as int, end as int),
            dots <= 2,
            dots >= 1 ==> start <= first < i && s@[first as int] == '.',
            dots >= 2 ==> first < second < i && s@[second as int] == '.',
            forall|k: int|
                start <= k < i && !(dots >= 1 && k == first) && !(dots >= 2 && k == second)
                    ==> is_digit(#[trigger] s@[k]),
        decreases end - i,
    {
        let c: char = s[i];
        if c == '.' {
            if dots == 0 {
                first = i;
                dots = 1;
            } else if dots == 1 {
                second = i;
                dots = 2;
            } else {
                proof {
                    assert forall|a: int, b: int| !#[trigger] dotted(t, a, b) by {
                        if dotted(t, a, b) {
                            assert(t[first - start] == '.');
                            assert(t[second - start] == '.');
                            assert(t[i - start] == '.');
                            assert(!is_digit('.'));
                        }
                    }
                }
                return false;
            }
        } else if c < '0' || c > '9' {
            proof {
                assert forall|a: int, b: int| !#[trigger] dotted(t, a, b) by {
                    if dotted(t, a, b) {
                        assert(t[i - start] == c);
                    }
                }
            }
            return false;
        }
        i += 1;
    }
    let good: bool = dots == 2 && start < first && first + 1 < second && second + 1 < end;
    proof {
        if good {
            assert forall|k: int|
                0 <= k < t.len() && k != first - start && k != second - start implies is_digit(
                #[trigger] t[k],
            ) by {
                assert(t[k] == s@[k + start]);
            }
            assert(dotted(t, first - start, second - start));
        } else {
            assert forall|a: int, b: int| !#[trigger] dotted(t, a, b) by {
                if dotted(t, a, b) {
                    assert(t[a] == s@[a + start]);
                    assert(t[b] == s@[b + start]);
                    assert(!is_digit('.'));
                    if dots >= 1 {
                        assert(t[first - start] == '.');
                    }
                    if dots >= 2 {
                        assert(t[second - start] == '.');
                    }
                }
            }
        }
    }
    good
}

/// Finds the version in the first token that names one: a `v` and three
/// numbers with dots between them.
pub fn parse_version(s: &str) -> (r: Option<String>)
    ensures
        match r {
            Some(v) => version_in(s@) == Some(v@),
            None => version_in(s@) is None,
        },
{
    let c: Vec<char> = chars_of(s);
    let mut i: usize = 0;
    assert(c@.skip(0) =~= c@);
    while i < c.len()
        invariant
            i <= c@.len(),
            c@ == s@,
            version_in(s@) == version_in(c@.skip(i as int)),
        decreases c.len() - i,
    {
        let ghost rest = c@.skip(i as int);
        if !is_token_char(c[i]) {
            assert(rest.skip(1) =~= c@.skip(i + 1));
            i += 1;
        } else {
            let start: usize = i;
            while i < c.len() && is_token_char(c[i])
                invariant
                    start <= i <= c@.len(),
                    rest == c@.skip(start as int),
                    token_len(rest) == (i - start) + token_len(c@.skip(i as int)),
                decreases c.len() - i,
            {
                assert(c@.skip(i as int).skip(1) =~= c@.skip(i + 1));
                i += 1;
            }
            proof {
                assert(token_len(c@.skip(i as int)) == 0) by {
                    if i < c.len() {
                        assert(c@.skip(i as int)[0] == c@[i as int]);
                    }
                }
                lemma_token_len(rest);
                assert(rest.skip(i - start) =~= c@.skip(i as int));
                assert(rest.take(i - start).skip(1) =~= c@.subrange(start + 1, i as int));
                assert(rest.take(i - start)[0] == c@[start as int]);
            }
            if c[start] == 'v' && spells_version(&c, start + 1, i) {
                return Some(s.substring_char(start + 1, i).to_owned());
            }
        }
    }
    assert(c@.skip(i as int) =~= Seq::<char>::empty());
    None
}

/// What `String::from_utf8_lossy` makes of a run of bytes.
pub uninterp spec fn lossy_text(bytes: Seq<u8>) -> Seq<char>;

/// `String::from_utf8_lossy`. Bytes that are UTF-8 are decoded; what is put
/// in the place of bytes that are not is not stated.
#[verifier::external_body]
fn decode_lossy(bytes: &Vec<u8>) -> (r: String)
    ensures
        r@ == lossy_text(bytes@),
        valid_utf8(bytes@) ==> r@ == decode_utf8(bytes@),
{
    String::from_utf8_lossy(bytes).into_owned()
}

/// Why no version came out of a handshake.
#[derive(Debug)]
pub enum HandshakeError {
    /// The reply names no version; the front of it is quoted.
    NoVersion { excerpt: String },
}

/// The first characters of a reply, as many as an error quotes.
pub open spec fn excerpt_of(text: Seq<char>) -> Seq<char> {
    if text.len() > EXCERPT {
        text.take(EXCERPT as int)
    } else {
        text
    }
}

/// What the text of a reply comes to.
pub open spec fn answer(text: Seq<char>, r: Result<String, HandshakeError>) -> bool {
    match version_in(text) {
        Some(v) => r matches Ok(got) && got@ == v,
        None => r matches Err(HandshakeError::NoVersion { excerpt }) && excerpt@ == excerpt_of(
            text,
        ),
    }
}

/// Finds the version in the text of a reply.
pub fn version_of(text: &str) -> (r: Result<String, HandshakeError>)
    ensures
        answer(text@, r),
{
    match parse_version(text) {
        Some(v) => Ok(v),
        None => {
            let n: usize = text.unicode_len();
            let end: usize = if n > EXCERPT {
                EXCERPT
            } else {
                n
            };
            let excerpt: String = text.substring_char(0, end).to_owned();
            assert(excerpt@ =~= excerpt_of(text@));
            Err(HandshakeError::NoVersion { excerpt })
        },
    }
}

/// What has come back from a board so far.
#[derive(Debug)]
pub struct Handshake {
    pub reply: Vec<u8>,
}

/// What the host sends: an empty line, to end any that is under way, and the
/// question.
pub open spec fn query_text() -> Seq<char> {
    "\r\nversion\r\n"@
}

impl Handshake {
    /// Nothing has come back.
    pub fn new() -> (r: Handshake)
        ensures
            r.reply@ == Seq::<u8>::empty(),
    {
        Handshake { reply: Vec::new() }
    }

    /// What the host sends.
    pub fn query() -> (r: &'static str)
        ensures
            r@ == query_text(),
    {
        "\r\nversion\r\n"
    }

    /// Takes what a read returned. Returns whether that is enough.
    pub fn take(&mut self, chunk: &[u8]) -> (r: bool)
        ensures
            final(self).reply@ == old(self).reply@ + chunk@,
            r == (chunk@.len() > 0 && final(self).reply@.len() > ENOUGH),
    {
        let mut i: usize = 0;
        assert(chunk@.take(0) =~= Seq::<u8>::empty());
        while i < chunk.len()
            invariant
                i <= chunk@.len(),
                self.reply@ == old(self).reply@ + chunk@.take(i as int),
            decreases chunk.len() - i,
        {
            self.reply.push(chunk[i]);
            assert(chunk@.take(i + 1) =~= chunk@.take(i as int).push(chunk@[i as int]));
            i += 1;
        }
        assert(chunk@.take(i as int) =~= chunk@);
        chunk.len() > 0 && self.reply.len() > ENOUGH
    }

    /// Finds the version in what came back.
    pub fn version(&self) -> (r: Result<String, HandshakeError>)
        ensures
            answer(lossy_text(self.reply@), r),
            valid_utf8(self.reply@) ==> answer(decode_utf8(self.reply@), r),
    {
        let text: String = decode_lossy(&self.reply);
        version_of(text.as_str())
    }
}

/// What a host says to a board whose version is not its own.
pub open spec fn mismatch_text(label: Seq<char>, firmware: Seq<char>, host: Seq<char>) -> Seq<char> {
    "board "@ + label + ": version mismatch: firmware v"@ + firmware + " != host v"@ + host
        + ". Reflash firmware/target/thumbv6m-none-eabi/release/tmc-new-era.uf2 or rebuild the host."@
}

/// Holds the version of a board against the host's own. They must be the same.
pub fn check_version(label: &str, firmware: &str, host: &str) -> (r: Result<(), String>)
    ensures
        r is Ok <==> firmware@ == host@,
        r matches Err(text) ==> text@ == mismatch_text(label@, firmware@, host@),
{
    if same(&chars_of(firmware), host) {
        return Ok(());
    }
    let mut text: String = String::new();
    assert(text@ =~= Seq::<char>::empty());
    text.append("board ");
    text.append(label);
    text.append(": version mismatch: firmware v");
    text.append(firmware);
    text.append(" != host v");
    text.append(host);
    text.append(
        ". Reflash firmware/target/thumbv6m-none-eabi/release/tmc-new-era.uf2 or rebuild the host.",
    );
    assert(text@ =~= mismatch_text(label@, firmware@, host@));
    Err(text)
}

// --------------------------------------------------------------------------
// Laws
// --------------------------------------------------------------------------

proof fn lemma_token_len_is(s: Seq<char>, n: int)
    requires
        0 <= n <= s.len(),
        forall|i: int| 0 <= i < n ==> in_token(#[trigger] s[i]),
        n < s.len() ==> !in_token(s[n]),
    ensures
        token_len(s) == n,
    decreases n,
{
    if n > 0 {
        lemma_token_len_is(s.skip(1), n - 1);
    }
}

/// Nothing that is not part of a token tells a version.
pub proof fn lemma_skip_separator(c: char, rest: Seq<char>)
    requires
        !in_token(c),
    ensures
        version_in(seq![c] + rest) == version_in(rest),
{
    assert((seq![c] + rest).skip(1) =~= rest);
}

/// A token that names no version is passed over.
pub proof fn lemma_skip_token(token: Seq<char>, rest: Seq<char>)
    requires
        token.len() > 0,
        forall|i: int| 0 <= i < token.len() ==> in_token(#[trigger] token[i]),
        rest.len() > 0 ==> !in_token(rest[0]),
        !names_version(token),
    ensures
        version_in(token + rest) == version_in(rest),
{
    let s = token + rest;
    let n = token.len() as int;
    assert forall|i: int| 0 <= i < n implies in_token(#[trigger] s[i]) by {
        assert(s[i] == token[i]);
    }
    lemma_token_len_is(s, n);
    assert(s.take(n) =~= token);
    assert(s.skip(n) =~= rest);
    assert(in_token(s[0]));
}

/// A token that names a version tells it, whatever follows.
pub proof fn versions_are_found(version: Seq<char>, rest: Seq<char>)
    requires
        is_version(version),
        rest.len() > 0 ==> !in_token(rest[0]),
    ensures
        version_in(seq!['v'] + version + rest) == Some(version),
{
    let token = seq!['v'] + version;
    let s = token + rest;
    let n = token.len() as int;
    let (a, b) = choose|a: int, b: int| #[trigger] dotted(version, a, b);
    assert forall|i: int| 0 <= i < n implies in_token(#[trigger] s[i]) by {
        if i > 0 {
            assert(s[i] == version[i - 1]);
            if i - 1 != a && i - 1 != b {
                assert(is_digit(version[i - 1]));
            }
        }
    }
    lemma_token_len_is(s, n);
    assert(s.take(n) =~= token);
    assert(token.skip(1) =~= version);
    assert(in_token(s[0]));
}

/// A version is three numbers with dots between them, and nothing else is.
pub proof fn versions_are_three_numbers(a: Seq<char>, b: Seq<char>, c: Seq<char>, s: Seq<char>)
    requires
        a.len() > 0 && b.len() > 0 && c.len() > 0,
        forall|i: int| 0 <= i < a.len() ==> '0' <= #[trigger] a[i] <= '9',
        forall|i: int| 0 <= i < b.len() ==> '0' <= #[trigger] b[i] <= '9',
        forall|i: int| 0 <= i < c.len() ==> '0' <= #[trigger] c[i] <= '9',
    ensures
        is_version(a + seq!['.'] + b + seq!['.'] + c),
        is_version(s) ==> exists|i: int, j: int|
            {
                &&& 0 < i && i + 1 < j && j + 1 < s.len()
                &&& #[trigger] s[i] == '.' && #[trigger] s[j] == '.'
                &&& forall|k: int|
                    0 <= k < s.len() && k != i && k != j ==> '0' <= #[trigger] s[k] <= '9'
            },
{
    let t = a + seq!['.'] + b + seq!['.'] + c;
    let i = a.len() as int;
    let j = i + 1 + b.len();
    assert(t[i] == '.' && t[j] == '.');
    assert forall|k: int| 0 <= k < t.len() && k != i && k != j implies is_digit(#[trigger] t[k]) by {
        if k < i {
            assert(t[k] == a[k]);
        } else if k < j {
            assert(t[k] == b[k - i - 1]);
        } else {
            assert(t[k] == c[k - j - 1]);
        }
    }
    assert(dotted(t, i, j));
    if is_version(s) {
        let (x, y) = choose|x: int, y: int| #[trigger] dotted(s, x, y);
        assert(s[x] == '.' && s[y] == '.');
        assert forall|k: int| 0 <= k < s.len() && k != x && k != y implies '0' <= #[trigger] s[k]
            <= '9' by {
            assert(is_digit(s[k]));
        }
    }
}

/// A text is gone through token by token. A token is a run of letters, digits
/// and dots. The first that is a `v` and a version tells it; tokens that are
/// not, and what stands between tokens, tell nothing.
pub proof fn tokens_are_taken_in_turn(token: Seq<char>, c: char, rest: Seq<char>)
    requires
        token.len() > 0,
        forall|i: int|
            0 <= i < token.len() ==> {
                let t = #[trigger] token[i];
                '0' <= t <= '9' || 'a' <= t <= 'z' || 'A' <= t <= 'Z' || t == '.'
            },
        !('0' <= c <= '9' || 'a' <= c <= 'z' || 'A' <= c <= 'Z' || c == '.'),
    ensures
        version_in(Seq::empty()) is None,
        version_in(seq![c] + rest) == version_in(rest),
        token[0] == 'v' && is_version(token.skip(1)) ==> {
            &&& version_in(token) == Some(token.skip(1))
            &&& version_in(token + seq![c] + rest) == Some(token.skip(1))
        },
        !(token[0] == 'v' && is_version(token.skip(1))) ==> {
            &&& version_in(token) is None
            &&& version_in(token + seq![c] + rest) == version_in(rest)
        },
{
    let n = token.len() as int;
    let all = token + seq![c] + rest;
    lemma_skip_separator(c, rest);
    lemma_token_len_is(token, n);
    assert(token.take(n) =~= token);
    assert(token.skip(n) =~= Seq::<char>::empty());
    assert(version_in(token.skip(n)) is None);
    assert forall|i: int| 0 <= i < n implies in_token(#[trigger] all[i]) by {
        assert(all[i] == token[i]);
    }
    lemma_token_len_is(all, n);
    assert(all.take(n) =~= token);
    assert(all.skip(n) =~= seq![c] + rest);
    assert(all[0] == token[0]);
}

/// The answer of a board is the version that its reply tells. Where the reply
/// tells none, the error quotes it, up to its first 160 characters.
pub proof fn answers_tell_the_version(text: Seq<char>, r: Result<String, HandshakeError>)
    requires
        answer(text, r),
    ensures
        version_in(text) matches Some(v) ==> (r matches Ok(got) && got@ == v),
        version_in(text) is None && text.len() <= 160 ==> (r matches Err(
            HandshakeError::NoVersion { excerpt },
        ) && excerpt@ == text),
        version_in(text) is None && text.len() > 160 ==> (r matches Err(
            HandshakeError::NoVersion { excerpt },
        ) && excerpt@ == text.take(160)),
{
}

/// A board of another version is told apart by name, with both versions.
pub proof fn mismatches_name_both(label: Seq<char>, firmware: Seq<char>, host: Seq<char>)
    ensures
        exists|end: Seq<char>|
            mismatch_text(label, firmware, host) == "board "@ + label + (
            ": version mismatch: firmware v"@ + firmware) + (" != host v"@ + host) + end,
{
    let end =
        ". Reflash firmware/target/thumbv6m-none-eabi/release/tmc-new-era.uf2 or rebuild the host."@;
    assert(mismatch_text(label, firmware, host) =~= "board "@ + label + (
    ": version mismatch: firmware v"@ + firmware) + (" != host v"@ + host) + end);
}

} // verus!
