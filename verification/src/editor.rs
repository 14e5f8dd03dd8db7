//! The line editor of the command-line sessions: what each byte from the host
//! does to the line under way, and what goes back to the host.

use crate::effect::{
    acts, lemma_said_concat, prompt, said, sent, sent_is_said, shown, write_all, write_text, Act,
    Effect,
};
use crate::message::size;
use vstd::prelude::*;
use vstd::utf8::{encode_utf8, is_ascii_chars, is_ascii_chars_encode_utf8};

verus! {

/// How many characters a line can hold.
pub const LINE: usize = 128;

/// `heapless::String`, a string of fixed capacity.
#[verifier::external_type_specification]
#[verifier::external_body]
pub struct ExHeaplessString<const N: usize>(heapless::String<N>);

/// The characters that a `heapless::String` holds.
pub uninterp spec fn line_text(s: heapless::String<128>) -> Seq<char>;

/// `heapless::String::new` makes an empty string.
#[verifier::external_body]
fn line_new() -> (r: heapless::String<128>)
    ensures
        line_text(r) == Seq::<char>::empty(),
{
    heapless::String::new()
}

/// `heapless::String::push` appends a character if the bytes of the string
/// and of the character fit in the capacity, and otherwise fails and leaves
/// the string as it is.
#[verifier::external_body]
fn line_push(s: &mut heapless::String<128>, c: char) -> (r: bool)
    ensures
        r == (size(line_text(*old(s))) + size(seq![c]) <= 128),
        r ==> line_text(*final(s)) == line_text(*old(s)).push(c),
        !r ==> line_text(*final(s)) == line_text(*old(s)),
{
    s.push(c).is_ok()
}

/// `heapless::String::pop` takes the last character off and returns it, or
/// returns nothing where the string is empty.
#[verifier::external_body]
fn line_pop(s: &mut heapless::String<128>) -> (r: Option<char>)
    ensures
        r is Some <==> line_text(*old(s)).len() > 0,
        r matches Some(c) ==> line_text(*old(s)) == line_text(*final(s)).push(c),
        r is None ==> line_text(*final(s)) == line_text(*old(s)),
{
    s.pop()
}

/// `heapless::String::clear` empties the string.
#[verifier::external_body]
fn line_clear(s: &mut heapless::String<128>)
    ensures
        line_text(*final(s)) == Seq::<char>::empty(),
{
    s.clear()
}

/// `heapless::String::as_str` lends the string's characters.
#[verifier::external_body]
fn line_str(s: &heapless::String<128>) -> (r: &str)
    ensures
        r@ == line_text(*s),
{
    s.as_str()
}

/// The bytes that end a line.
pub open spec fn ends_line(b: u8) -> bool {
    b == 0x0d || b == 0x0a
}

/// The bytes that take the last character back.
pub open spec fn erases(b: u8) -> bool {
    b == 0x7f || b == 0x08
}

/// The byte that abandons a line.
pub open spec fn abandons(b: u8) -> bool {
    b == 0x03
}

pub open spec fn printable(b: u8) -> bool {
    0x20 <= b < 0x7f
}

/// The line under way after a byte that does not end it.
pub open spec fn edited(line: Seq<char>, b: u8) -> Seq<char> {
    if erases(b) && line.len() > 0 {
        line.drop_last()
    } else if abandons(b) {
        Seq::empty()
    } else if printable(b) && line.len() < LINE {
        line.push(b as char)
    } else {
        line
    }
}

/// What goes back to the host for a byte that does not end the line.
pub open spec fn echoed(line: Seq<char>, b: u8) -> Seq<Act> {
    if erases(b) && line.len() > 0 {
        shown("\x08 \x08"@)
    } else if abandons(b) {
        shown("^C\r\n"@) + shown("> "@)
    } else if printable(b) && line.len() < LINE {
        sent(seq![b])
    } else {
        Seq::empty()
    }
}

/// What a line can hold: printable characters, as many as fit.
pub open spec fn line_ok(line: Seq<char>) -> bool {
    &&& line.len() <= LINE
    &&& forall|i: int| 0 <= i < line.len() ==> ' ' <= #[trigger] line[i] <= '~'
}

/// A line under way.
pub struct Editor {
    line: heapless::String<128>,
}

impl View for Editor {
    type V = Seq<char>;

    closed spec fn view(&self) -> Seq<char> {
        line_text(self.line)
    }
}

impl Editor {
    pub open spec fn wf(&self) -> bool {
        line_ok(self@)
    }

    /// An empty line.
    pub fn new() -> (r: Editor)
        ensures
            r.wf(),
            r@ == Seq::<char>::empty(),
    {
        Editor { line: line_new() }
    }

    /// The line under way.
    pub fn text(&self) -> (r: &str)
        ensures
            r@ == self@,
    {
        line_str(&self.line)
    }

    /// Whether the line under way holds nothing.
    pub fn is_empty(&self) -> (r: bool)
        ensures
            r == (self@.len() == 0),
    {
        self.text().unicode_len() == 0
    }

    /// Starts over with an empty line.
    pub fn clear(&mut self)
        ensures
            final(self).wf(),
            final(self)@ == Seq::<char>::empty(),
    {
        line_clear(&mut self.line);
    }

    /// Takes a byte from the host and answers it. Returns whether the byte
    /// ends the line, which is then left as it is, and unanswered.
    pub fn key(&mut self, b: u8, out: &mut Vec<Effect>) -> (r: bool)
        requires
            old(self).wf(),
        ensures
            final(self).wf(),
            r == ends_line(b),
            r ==> final(self)@ == old(self)@ && acts(final(out)@) == acts(old(out)@),
            !r ==> final(self)@ == edited(old(self)@, b) && acts(final(out)@) == acts(old(out)@)
                + echoed(old(self)@, b),
    {
        let ghost start = acts(out@);
        let ghost before = self@;
        assert(start + Seq::<Act>::empty() =~= start);
        if b == 0x0d || b == 0x0a {
            return true;
        }
        if b == 0x7f || b == 0x08 {
            let popped: Option<char> = line_pop(&mut self.line);
            if popped.is_some() {
                write_text(out, "\x08 \x08");
                assert(self@ =~= before.drop_last());
            }
        } else if b == 0x03 {
            line_clear(&mut self.line);
            write_text(out, "^C\r\n");
            prompt(out);
            assert(acts(out@) =~= start + (shown("^C\r\n"@) + shown("> "@)));
        } else if b >= 0x20 && b < 0x7f {
            let c: char = b as char;
            proof {
                assert(is_ascii_chars(before));
                is_ascii_chars_encode_utf8(before);
                is_ascii_chars_encode_utf8(seq![c]);
            }
            if line_push(&mut self.line, c) {
                let one: [u8; 1] = [b];
                write_all(out, one.as_slice());
                assert(one@ =~= seq![b]);
            }
        }
        false
    }
}

// --------------------------------------------------------------------------
// Laws
// --------------------------------------------------------------------------

/// The line under way after a run of bytes of which none ends it.
pub open spec fn edited_all(line: Seq<char>, bytes: Seq<u8>) -> Seq<char>
    decreases bytes.len(),
{
    if bytes.len() == 0 {
        line
    } else {
        edited(edited_all(line, bytes.drop_last()), bytes.last())
    }
}

/// The characters of a run of printable bytes.
pub open spec fn typed_text(bytes: Seq<u8>) -> Seq<char> {
    bytes.map_values(|b: u8| b as char)
}

/// A line never holds more than it can, nor anything that cannot be printed,
/// whatever the host sends.
pub proof fn lines_stay_printable(line: Seq<char>, b: u8)
    requires
        line_ok(line),
    ensures
        line_ok(edited(line, b)),
{
}

/// Erasing takes back exactly one typed character.
pub proof fn erasing_undoes_typing(line: Seq<char>, b: u8, eraser: u8)
    requires
        line.len() < LINE,
        printable(b),
        erases(eraser),
    ensures
        edited(edited(line, b), eraser) == line,
{
    assert(line.push(b as char).drop_last() =~= line);
}

/// Typing printable characters appends them in order, as long as they fit.
pub proof fn typing_appends(line: Seq<char>, bytes: Seq<u8>)
    requires
        line.len() + bytes.len() <= LINE,
        forall|i: int| 0 <= i < bytes.len() ==> printable(#[trigger] bytes[i]),
    ensures
        edited_all(line, bytes) == line + typed_text(bytes),
    decreases bytes.len(),
{
    if bytes.len() == 0 {
        assert(line + typed_text(bytes) =~= line);
    } else {
        typing_appends(line, bytes.drop_last());
        assert(line + typed_text(bytes) =~= (line + typed_text(bytes.drop_last())).push(
            bytes.last() as char,
        ));
    }
}

/// A full line takes no more characters and echoes none.
pub proof fn full_lines_ignore_typing(line: Seq<char>, b: u8)
    requires
        line.len() == LINE,
        printable(b),
    ensures
        edited(line, b) == line,
        echoed(line, b) == Seq::<Act>::empty(),
{
}

/// What each byte does to a line under way. A printable one is appended, up to
/// 128 characters; backspace and delete take the last character off; Ctrl-C
/// abandons the line; no other byte changes it. Each is echoed as a terminal needs it:
/// a character as itself, one that is taken off by backing over it, and an
/// abandoned line by `^C` and a new prompt.
pub proof fn bytes_edit_the_line(line: Seq<char>, b: u8)
    ensures
        0x20 <= b <= 0x7e && line.len() < 128 ==> {
            &&& edited(line, b) == line.push(b as char)
            &&& said(echoed(line, b)) == seq![b]
        },
        0x20 <= b <= 0x7e && line.len() >= 128 ==> {
            &&& edited(line, b) == line
            &&& echoed(line, b) == Seq::<Act>::empty()
        },
        (b == 0x08 || b == 0x7f) && line.len() > 0 ==> {
            &&& edited(line, b) == line.take(line.len() - 1)
            &&& said(echoed(line, b)) == seq![0x08u8, 0x20u8, 0x08u8]
        },
        (b == 0x08 || b == 0x7f) && line.len() == 0 ==> {
            &&& edited(line, b) == line
            &&& echoed(line, b) == Seq::<Act>::empty()
        },
        b == 0x03 ==> {
            &&& edited(line, b) == Seq::<char>::empty()
            &&& said(echoed(line, b)) == seq![0x5eu8, 0x43u8, 0x0du8, 0x0au8, 0x3eu8, 0x20u8]
        },
        (b < 0x20 && b != 0x03 && b != 0x08) || b > 0x7f ==> {
            &&& edited(line, b) == line
            &&& echoed(line, b) == Seq::<Act>::empty()
        },
        ends_line(b) <==> b == 0x0d || b == 0x0a,
{
    reveal_strlit("\x08 \x08");
    reveal_strlit("^C\r\n");
    reveal_strlit("> ");
    is_ascii_chars_encode_utf8("\x08 \x08"@);
    is_ascii_chars_encode_utf8("^C\r\n"@);
    is_ascii_chars_encode_utf8("> "@);
    let back = "\x08 \x08"@;
    let stop = "^C\r\n"@;
    let next = "> "@;
    assert(back[0] == '\x08' && back[1] == ' ' && back[2] == '\x08');
    assert(stop[0] == '^' && stop[1] == 'C' && stop[2] == '\r' && stop[3] == '\n');
    assert(next[0] == '>' && next[1] == ' ');
    assert(encode_utf8(back) =~= seq![0x08u8, 0x20u8, 0x08u8]);
    assert(encode_utf8(stop) + encode_utf8(next) =~= seq![
        0x5eu8,
        0x43u8,
        0x0du8,
        0x0au8,
        0x3eu8,
        0x20u8,
    ]);
    sent_is_said(seq![b]);
    sent_is_said(encode_utf8(back));
    sent_is_said(encode_utf8(stop));
    sent_is_said(encode_utf8(next));
    lemma_said_concat(shown(stop), shown(next));
    if line.len() > 0 {
        assert(line.drop_last() =~= line.take(line.len() - 1));
    }
}

/// A run of bytes does what its bytes do, one after the other.
pub proof fn lines_of_bytes_go_byte_by_byte(line: Seq<char>, bytes: Seq<u8>, b: u8)
    ensures
        edited_all(line, Seq::empty()) == line,
        edited_all(line, bytes.push(b)) == edited(edited_all(line, bytes), b),
{
    assert(bytes.push(b).drop_last() =~= bytes);
}

} // verus!
