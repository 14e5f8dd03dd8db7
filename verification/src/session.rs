//! A command-line session with the firmware: greeting, editing, and running
//! the lines that the host enters.

use crate::board::{Board, Record};
use crate::editor::{
    echoed, edited, edited_all, ends_line, printable, typed_text, typing_appends, Editor, LINE,
};
use crate::effect::{
    acts, prompt, said, sent, sent_is_said, shown, shown_line, write_line, write_text, Act, Effect,
};
use crate::firmware::{
    finished, finished_record, line_plan, pending_after, resume, resumed, resumed_record,
    run_command, Outcome, Pending,
};
use crate::message::{
    compose, fitted, joined, lemma_joined_three, message_is_whole, piece_views, size, total_size,
};
use crate::reply::owned;
use vstd::prelude::*;
use vstd::utf8::is_ascii_chars_encode_utf8;

verus! {

/// The pieces of the greeting.
pub open spec fn banner_pieces(version: Seq<char>) -> Seq<Seq<char>> {
    seq!["tmc-new-era v"@, version, " - SKR Pico stepper CLI"@]
}

/// The greeting, composed in 80 bytes.
pub open spec fn banner_text(version: Seq<char>) -> Seq<char> {
    fitted(Seq::empty(), banner_pieces(version), 80)
}

/// What opens a session.
pub open spec fn greeting(version: Seq<char>) -> Seq<Act> {
    shown_line(""@) + shown_line(banner_text(version)) + shown_line("type 'help' for commands"@)
        + shown("> "@)
}

/// What a session goes on with, once the effects of a turn are done.
#[derive(Clone, Copy, Debug, PartialEq, Eq, Structural)]
pub enum Next {
    /// The next byte from the host.
    Byte,
    /// The line under way, which was entered: it is run.
    Line,
    /// The end of a wait.
    Wait { pending: Pending },
    /// Nothing: the host has left, and the session is over.
    Gone,
}

/// Whether the host held its end of the line open, before a wait and after it.
#[derive(Clone, Copy, Debug, PartialEq, Eq, Structural)]
pub struct Presence {
    pub before: bool,
    pub after: bool,
}

impl Presence {
    /// The host left during the wait.
    pub open spec fn left(self) -> bool {
        self.before && !self.after
    }
}

/// What a session asks for in one go. Nothing that comes next is begun before
/// every packet of it is delivered.
#[derive(Debug)]
pub struct Turn {
    pub effects: Vec<Effect>,
    pub next: Next,
}

/// A session: the line under way.
pub struct Session {
    pub editor: Editor,
}

/// The line under way after a byte. A line that is entered stays until it is run.
pub open spec fn fed_line(line: Seq<char>, b: u8) -> Seq<char> {
    if ends_line(b) {
        line
    } else {
        edited(line, b)
    }
}

/// What a byte from the host is answered at once.
pub open spec fn fed_acts(line: Seq<char>, b: u8) -> Seq<Act> {
    if !ends_line(b) {
        echoed(line, b)
    } else if line.len() == 0 {
        shown("\r\n"@) + shown("> "@)
    } else {
        shown("\r\n"@)
    }
}

/// What a byte from the host calls for: a line that holds anything is run.
pub open spec fn fed_next(line: Seq<char>, b: u8) -> Next {
    if ends_line(b) && line.len() > 0 {
        Next::Line
    } else {
        Next::Byte
    }
}

/// What a session goes on with after a command, or a part of one.
pub open spec fn next_for(pending: Pending) -> Next {
    if pending is Nothing {
        Next::Byte
    } else {
        Next::Wait { pending }
    }
}

/// The prompt, once a command is done.
pub open spec fn prompt_for(pending: Pending) -> Seq<Act> {
    if pending is Nothing {
        shown("> "@)
    } else {
        Seq::empty()
    }
}

impl Session {
    pub open spec fn wf(&self) -> bool {
        self.editor.wf()
    }

    /// Opens a session: greets the host and starts an empty line.
    pub fn open(version: &str) -> (r: (Session, Vec<Effect>))
        ensures
            r.0.wf(),
            r.0.editor@ == Seq::<char>::empty(),
            acts(r.1@) == greeting(version@),
    {
        let mut out: Vec<Effect> = Vec::new();
        let pieces: Vec<String> = vec![
            owned("tmc-new-era v"),
            owned(version),
            owned(" - SKR Pico stepper CLI"),
        ];
        assert(piece_views(pieces@) =~= banner_pieces(version@));
        let empty: String = String::new();
        assert(empty@ =~= Seq::<char>::empty());
        let banner: String = compose::<80>(empty, &pieces);
        write_line(&mut out, "");
        write_line(&mut out, banner.as_str());
        write_line(&mut out, "type 'help' for commands");
        prompt(&mut out);
        assert(acts(out@) =~= greeting(version@));
        (Session { editor: Editor::new() }, out)
    }

    /// Takes a byte from the host: edits the line under way, or ends it. The
    /// board is not touched.
    pub fn feed(&mut self, b: u8) -> (r: Turn)
        requires
            old(self).wf(),
        ensures
            final(self).wf(),
            final(self).editor@ == fed_line(old(self).editor@, b),
            acts(r.effects@) == fed_acts(old(self).editor@, b),
            r.next == fed_next(old(self).editor@, b),
    {
        let mut out: Vec<Effect> = Vec::new();
        assert(acts(out@) =~= Seq::<Act>::empty());
        let entered: bool = self.editor.key(b, &mut out);
        if !entered {
            assert(acts(out@) =~= echoed(old(self).editor@, b));
            return Turn { effects: out, next: Next::Byte };
        }
        write_text(&mut out, "\r\n");
        assert(acts(out@) =~= shown("\r\n"@));
        if self.editor.is_empty() {
            prompt(&mut out);
            return Turn { effects: out, next: Next::Byte };
        }
        Turn { effects: out, next: Next::Line }
    }

    /// Runs the line under way and starts an empty one. The prompt follows
    /// once the command is done.
    pub fn run(&mut self, board: &mut Board, version: &str) -> (r: Turn)
        requires
            old(self).wf(),
        ensures
            final(self).wf(),
            final(self).editor@ == Seq::<char>::empty(),
            old(board).wf() ==> final(board).wf(),
            final(board)@ == line_plan(old(board)@, old(self).editor@, version@).record,
            acts(r.effects@) == line_plan(old(board)@, old(self).editor@, version@).acts
                + prompt_for(line_plan(old(board)@, old(self).editor@, version@).pending),
            r.next == next_for(line_plan(old(board)@, old(self).editor@, version@).pending),
            r.next matches Next::Wait { pending } ==> pending.wf(),
    {
        let out: Outcome = run_command(board, self.editor.text(), version);
        self.editor.clear();
        Self::turn(out)
    }

    /// Goes on with a command at the end of a wait. `accepted` tells whether
    /// settings found room in the queue; no other wait looks at it. A host that
    /// has left ends the session there and then: nothing is sent to an axis,
    /// and nothing is recorded.
    pub fn resume(
        &self,
        board: &mut Board,
        pending: Pending,
        accepted: bool,
        host: Presence,
    ) -> (r: Turn)
        requires
            pending.wf(),
        ensures
            old(board).wf() ==> final(board).wf(),
            host.left() ==> {
                &&& *final(board) == *old(board)
                &&& acts(r.effects@) == Seq::<Act>::empty()
                &&& r.next is Gone
            },
            !host.left() ==> {
                &&& final(board)@ == resumed_record(old(board)@, pending)
                &&& acts(r.effects@) == resumed(pending, accepted) + prompt_for(
                    pending_after(pending),
                )
                &&& r.next == next_for(pending_after(pending))
                &&& (r.next matches Next::Wait { pending: p } ==> p.wf())
            },
    {
        if host.before && !host.after {
            let effects: Vec<Effect> = Vec::new();
            assert(acts(effects@) =~= Seq::<Act>::empty());
            return Turn { effects, next: Next::Gone };
        }
        Self::turn(resume(board, pending, accepted))
    }

    /// The turn that a command, or a part of one, comes to.
    fn turn(out: Outcome) -> (r: Turn)
        ensures
            acts(r.effects@) == acts(out.effects@) + prompt_for(out.pending),
            r.next == next_for(out.pending),
    {
        let mut effects: Vec<Effect> = out.effects;
        let next: Next = match out.pending {
            Pending::Nothing => {
                prompt(&mut effects);
                Next::Byte
            },
            pending => Next::Wait { pending },
        };
        assert(acts(effects@) =~= acts(out.effects@) + prompt_for(out.pending));
        Turn { effects, next }
    }
}

// --------------------------------------------------------------------------
// Laws
// --------------------------------------------------------------------------

/// A session between two bytes: the line under way, and the board's record.
#[verifier::ext_equal]
pub struct Seat {
    pub line: Seq<char>,
    pub record: Record,
}

/// The session after a byte, and after the line that the byte entered has run
/// to its end, if any.
#[verifier::opaque]
pub open spec fn served(s: Seat, b: u8, version: Seq<char>) -> Seat {
    if fed_next(s.line, b) is Line {
        Seat { line: Seq::empty(), record: run_record(s.record, s.line, version) }
    } else {
        Seat { line: fed_line(s.line, b), record: s.record }
    }
}

/// The session after a run of bytes.
#[verifier::opaque]
pub open spec fn served_all(s: Seat, bytes: Seq<u8>, version: Seq<char>) -> Seat
    decreases bytes.len(),
{
    if bytes.len() == 0 {
        s
    } else {
        served(served_all(s, bytes.drop_last(), version), bytes.last(), version)
    }
}

/// The record once a line has run to its end.
pub open spec fn run_record(r: Record, line: Seq<char>, version: Seq<char>) -> Record {
    let p = line_plan(r, line, version);
    finished_record(p.record, p.pending)
}

/// It makes no difference how a run of bytes is cut into packets.
pub proof fn packets_do_not_matter(s: Seat, a: Seq<u8>, b: Seq<u8>, version: Seq<char>)
    ensures
        served_all(s, a + b, version) == served_all(served_all(s, a, version), b, version),
    decreases b.len(),
{
    reveal(served_all);
    if b.len() == 0 {
        assert(a + b =~= a);
    } else {
        packets_do_not_matter(s, a, b.drop_last(), version);
        assert((a + b).drop_last() =~= a + b.drop_last());
    }
}

/// Whatever line is under way, a byte that ends it leaves an empty one.
pub proof fn line_ends_start_over(s: Seat, b: u8, version: Seq<char>)
    requires
        ends_line(b),
    ensures
        served(s, b, version).line == Seq::<char>::empty(),
{
    reveal(served);
    if s.line.len() == 0 {
        assert(s.line =~= Seq::<char>::empty());
    }
}

/// Typing changes the line under way and nothing else.
pub proof fn typing_leaves_the_board(s: Seat, bytes: Seq<u8>, version: Seq<char>)
    requires
        forall|i: int| 0 <= i < bytes.len() ==> !ends_line(#[trigger] bytes[i]),
    ensures
        served_all(s, bytes, version) == (Seat {
            line: edited_all(s.line, bytes),
            record: s.record,
        }),
    decreases bytes.len(),
{
    reveal(served);
    reveal(served_all);
    if bytes.len() > 0 {
        typing_leaves_the_board(s, bytes.drop_last(), version);
    }
}

/// A line that is typed on an empty one and entered runs, once, exactly as it
/// was typed, and leaves an empty line behind; the line feed behind the
/// carriage return does nothing more.
pub proof fn entered_lines_run(r: Record, bytes: Seq<u8>, version: Seq<char>)
    requires
        0 < bytes.len() <= LINE,
        forall|i: int| 0 <= i < bytes.len() ==> printable(#[trigger] bytes[i]),
    ensures
        served_all(Seat { line: Seq::empty(), record: r }, bytes + seq![0x0du8, 0x0au8], version)
            == (Seat { line: Seq::empty(), record: run_record(r, typed_text(bytes), version) }),
{
    reveal(served);
    reveal(served_all);
    let start = Seat { line: Seq::empty(), record: r };
    let all = bytes + seq![0x0du8, 0x0au8];
    typing_leaves_the_board(start, bytes, version);
    typing_appends(Seq::empty(), bytes);
    assert(Seq::<char>::empty() + typed_text(bytes) =~= typed_text(bytes));
    assert(all.drop_last() =~= bytes.push(0x0d));
    assert(bytes.push(0x0d).drop_last() =~= bytes);
    assert(all.last() == 0x0a);
    let entered = served_all(start, bytes.push(0x0d), version);
    assert(entered.line =~= Seq::<char>::empty());
}

/// All that a byte asks of the hardware and is answered, up to the prompt
/// behind the line that it entered, if any. `room` tells whether settings for
/// a driver find room in the queue.
#[verifier::opaque]
pub open spec fn answered(s: Seat, b: u8, version: Seq<char>, room: bool) -> Seq<Act> {
    if fed_next(s.line, b) is Line {
        let p = line_plan(s.record, s.line, version);
        fed_acts(s.line, b) + p.acts + finished(p.pending, room) + shown("> "@)
    } else {
        fed_acts(s.line, b)
    }
}

/// The turns of a command, to its end, add up to what it does and one prompt.
pub open spec fn turns(pending: Pending, room: bool) -> Seq<Act>
    decreases pending.ahead(),
{
    if pending is Nothing {
        Seq::empty()
    } else {
        resumed(pending, room) + prompt_for(pending_after(pending)) + turns(
            pending_after(pending),
            room,
        )
    }
}

/// The prompt comes once for each line, behind all that the line does.
pub proof fn prompts_come_last(pending: Pending, room: bool)
    ensures
        prompt_for(pending) + turns(pending, room) == finished(pending, room) + shown("> "@),
    decreases pending.ahead(),
{
    if pending is Nothing {
        assert(prompt_for(pending) + turns(pending, room) =~= finished(pending, room) + shown(
            "> "@,
        ));
    } else {
        let after = pending_after(pending);
        prompts_come_last(after, room);
        let r = resumed(pending, room);
        assert(r + prompt_for(after) + turns(after, room) =~= r + (prompt_for(after) + turns(
            after,
            room,
        )));
        assert(r + (finished(after, room) + shown("> "@)) =~= r + finished(after, room) + shown(
            "> "@,
        ));
        assert(prompt_for(pending) + turns(pending, room) =~= turns(pending, room));
    }
}

/// The bytes that come back to the host for a run of bytes.
#[verifier::opaque]
pub open spec fn spoken(s: Seat, bytes: Seq<u8>, version: Seq<char>, room: bool) -> Seq<u8>
    decreases bytes.len(),
{
    if bytes.len() == 0 {
        Seq::empty()
    } else {
        spoken(s, bytes.drop_last(), version, room) + said(
            answered(
                served_all(s, bytes.drop_last(), version),
                bytes.last(),
                version,
                room,
            ),
        )
    }
}

/// What comes back for two runs of bytes is what comes back for each in turn.
#[verifier::rlimit(40)]
pub proof fn lemma_spoken_concat(
    s: Seat,
    a: Seq<u8>,
    b: Seq<u8>,
    version: Seq<char>,
    room: bool,
)
    ensures
        spoken(s, a + b, version, room) == spoken(s, a, version, room) + spoken(
            served_all(s, a, version),
            b,
            version,
            room,
        ),
    decreases b.len(),
{
    reveal(spoken);
    let at = served_all(s, a, version);
    if b.len() == 0 {
        assert(a + b =~= a);
        assert(spoken(s, a, version, room) + spoken(at, b, version, room) =~= spoken(
            s,
            a,
            version,
            room,
        ));
    } else {
        lemma_spoken_concat(s, a, b.drop_last(), version, room);
        packets_do_not_matter(s, a, b.drop_last(), version);
        assert((a + b).drop_last() =~= a + b.drop_last());
        assert(spoken(s, a + b, version, room) =~= spoken(s, a, version, room) + spoken(
            at,
            b,
            version,
            room,
        ));
    }
}

/// Typing is echoed, byte for byte, as long as it fits.
pub proof fn typing_is_echoed(s: Seat, bytes: Seq<u8>, version: Seq<char>, room: bool)
    requires
        s.line.len() + bytes.len() <= LINE,
        forall|i: int| 0 <= i < bytes.len() ==> printable(#[trigger] bytes[i]),
    ensures
        spoken(s, bytes, version, room) == bytes,
    decreases bytes.len(),
{
    reveal(spoken);
    if bytes.len() > 0 {
        let before = bytes.drop_last();
        typing_is_echoed(s, before, version, room);
        typing_leaves_the_board(s, before, version);
        typing_appends(s.line, before);
        let b = bytes.last();
        let at = served_all(s, before, version);
        reveal(answered);
        assert(answered(at, b, version, room) =~= sent(seq![b]));
        sent_is_said(seq![b]);
        assert(bytes =~= before + seq![b]);
    }
}

/// The greeting is whole for every version of at most forty bytes.
pub proof fn banner_is_whole(version: Seq<char>)
    requires
        size(version) <= 40,
    ensures
        banner_text(version) == joined(banner_pieces(version)),
{
    let p = banner_pieces(version);
    reveal_strlit("tmc-new-era v");
    reveal_strlit(" - SKR Pico stepper CLI");
    is_ascii_chars_encode_utf8("tmc-new-era v"@);
    is_ascii_chars_encode_utf8(" - SKR Pico stepper CLI"@);
    reveal_with_fuel(total_size, 4);
    assert(size(p[0]) == 13 && size(p[1]) == size(version) && size(p[2]) == 23);
    message_is_whole(p, 80);
}

/// What a session makes of a byte. A carriage return or a line feed is answered
/// by a line break; the line that it ends is run, and where there is none the
/// prompt follows. Any other byte edits the line.
pub proof fn bytes_are_taken(line: Seq<char>, b: u8)
    ensures
        (b == 0x0d || b == 0x0a) && line.len() > 0 ==> {
            &&& fed_line(line, b) == line
            &&& fed_acts(line, b) == shown("\r\n"@)
            &&& fed_next(line, b) is Line
        },
        (b == 0x0d || b == 0x0a) && line.len() == 0 ==> {
            &&& fed_line(line, b) == line
            &&& fed_acts(line, b) == shown("\r\n"@) + shown("> "@)
            &&& fed_next(line, b) is Byte
        },
        b != 0x0d && b != 0x0a ==> {
            &&& fed_line(line, b) == edited(line, b)
            &&& fed_acts(line, b) == echoed(line, b)
            &&& fed_next(line, b) is Byte
        },
{
}

/// A command that is done is followed by the prompt and the next byte; one that
/// waits by nothing but its wait.
pub proof fn commands_are_followed_up(pending: Pending)
    ensures
        pending is Nothing ==> next_for(pending) is Byte && prompt_for(pending) == shown("> "@),
        pending !is Nothing ==> next_for(pending) == (Next::Wait { pending }) && prompt_for(pending)
            == Seq::<Act>::empty(),
{
}

/// A host is missed exactly when it was there before a wait and is not there
/// after it.
pub proof fn hosts_are_missed(host: Presence)
    ensures
        host.left() <==> host.before && !host.after,
{
}

/// A session serves its bytes one by one. A byte that ends a line with anything
/// in it runs that line, to its end, and leaves an empty one. Any other changes
/// no more than the line. What is answered is the echo, what the line does,
/// and the prompt.
pub proof fn bytes_are_served_in_turn(
    s: Seat,
    bytes: Seq<u8>,
    b: u8,
    version: Seq<char>,
    room: bool,
)
    ensures
        served_all(s, Seq::empty(), version) == s,
        served_all(s, bytes.push(b), version) == served(
            served_all(s, bytes, version),
            b,
            version,
        ),
        spoken(s, Seq::empty(), version, room) == Seq::<u8>::empty(),
        spoken(s, bytes.push(b), version, room) == spoken(s, bytes, version, room) + said(
            answered(served_all(s, bytes, version), b, version, room),
        ),
        (b == 0x0d || b == 0x0a) && s.line.len() > 0 ==> {
            let p = line_plan(s.record, s.line, version);
            &&& served(s, b, version) == (Seat {
                line: Seq::empty(),
                record: finished_record(p.record, p.pending),
            })
            &&& answered(s, b, version, room) == shown("\r\n"@) + p.acts + finished(
                p.pending,
                room,
            ) + shown("> "@)
        },
        !((b == 0x0d || b == 0x0a) && s.line.len() > 0) ==> {
            &&& served(s, b, version) == (Seat { line: fed_line(s.line, b), record: s.record })
            &&& answered(s, b, version, room) == fed_acts(s.line, b)
        },
{
    reveal(served_all);
    reveal(served);
    reveal(spoken);
    reveal(answered);
    assert(bytes.push(b).drop_last() =~= bytes);
}

/// A session opens with an empty line, the name and the version of the
/// firmware, a hint, and the prompt.
pub proof fn greetings_introduce_the_firmware(version: Seq<char>)
    requires
        size(version) <= 40,
    ensures
        greeting(version) == shown_line(""@) + shown_line(
            "tmc-new-era v"@ + version + " - SKR Pico stepper CLI"@,
        ) + shown_line("type 'help' for commands"@) + shown("> "@),
{
    banner_is_whole(version);
    lemma_joined_three("tmc-new-era v"@, version, " - SKR Pico stepper CLI"@);
}

} // verus!
