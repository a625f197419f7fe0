//! The line of an agent message that the log shows.

use crate::text::{chars_of, cut_text, is_blank, is_space, is_space_char, line_end, MAX_TEXT};
use crate::text::{law_cut_needs_one_more, lemma_line_end};
use vstd::prelude::*;

verus! {

/// The line so far, whether it has shown anything but white space, and
/// whether it has ended.
#[verifier::ext_equal]
pub struct LineView {
    pub line: Seq<char>,
    pub said: bool,
    pub done: bool,
}

/// Before anything was said.
pub open spec fn no_line() -> LineView {
    LineView { line: Seq::empty(), said: false, done: false }
}

/// The line after one more character.
pub open spec fn line_after(m: LineView, c: char) -> LineView {
    if m.done {
        m
    } else if c == '\n' {
        if m.said {
            LineView { done: true, ..m }
        } else {
            no_line()
        }
    } else {
        LineView {
            line: if m.line.len() <= MAX_TEXT {
                m.line.push(c)
            } else {
                m.line
            },
            said: m.said || !is_space_char(c),
            done: false,
        }
    }
}

/// The line after the characters of TEXT.
pub open spec fn line_after_text(m: LineView, text: Seq<char>) -> LineView
    decreases text.len(),
{
    if text.len() == 0 {
        m
    } else {
        line_after(line_after_text(m, text.drop_last()), text.last())
    }
}

/// The first non-blank line of a message streamed in chunks, in bounded
/// memory however long the message: at most MAX_TEXT characters and one
/// more, so `cut` still marks it as cut.
#[derive(Debug)]
pub struct MessageLine {
    pub line: Vec<char>,
    /// The line isn't blank, whether or not what is kept of it is.
    pub said: bool,
    /// The line has ended: the rest of the message is dropped.
    pub done: bool,
}

impl View for MessageLine {
    type V = LineView;

    open spec fn view(&self) -> LineView {
        LineView { line: self.line@, said: self.said, done: self.done }
    }
}

impl MessageLine {
    pub fn new() -> (r: MessageLine)
        ensures
            r@ == no_line(),
    {
        MessageLine { line: Vec::new(), said: false, done: false }
    }

    /// Takes in the next chunk of the message.
    pub fn push(&mut self, chunk: &str)
        ensures
            final(self)@ == line_after_text(old(self)@, chunk@),
    {
        let v = chars_of(chunk);
        let ghost start = self@;
        assert(v@.take(0) =~= Seq::<char>::empty());
        for i in 0..v.len()
            invariant
                self@ == line_after_text(start, v@.take(i as int)),
        {
            assert(v@.take(i + 1).drop_last() =~= v@.take(i as int));
            let c = v[i];
            if self.done {
            } else if c == '\n' {
                if self.said {
                    self.done = true;
                } else {
                    self.line.clear();
                    assert(self@ == no_line());
                }
            } else {
                if self.line.len() <= MAX_TEXT {
                    self.line.push(c);
                }
                if !is_space(c) {
                    self.said = true;
                }
            }
        }
        assert(v@.take(v@.len() as int) =~= v@);
    }
}

/// However a message is cut into chunks, its line is the same.
pub proof fn law_chunks_do_not_matter(m: LineView, a: Seq<char>, b: Seq<char>)
    ensures
        line_after_text(line_after_text(m, a), b) == line_after_text(m, a + b),
    decreases b.len(),
{
    if b.len() == 0 {
        assert(a + b =~= a);
    } else {
        law_chunks_do_not_matter(m, a, b.drop_last());
        assert((a + b).drop_last() =~= a + b.drop_last());
    }
}

/// A line of at most MAX_TEXT characters and one more never grows beyond
/// that.
pub proof fn law_line_is_bounded(m: LineView, text: Seq<char>)
    requires
        m.line.len() <= MAX_TEXT + 1,
    ensures
        line_after_text(m, text).line.len() <= MAX_TEXT + 1,
    decreases text.len(),
{
    if text.len() > 0 {
        law_line_is_bounded(m, text.drop_last());
    }
}

/// Once the line has ended, nothing more is kept.
pub proof fn law_ended_line_stays(m: LineView, text: Seq<char>)
    requires
        m.done,
    ensures
        line_after_text(m, text) == m,
    decreases text.len(),
{
    if text.len() > 0 {
        law_ended_line_stays(m, text.drop_last());
    }
}

/// The first MAX_TEXT characters of a line, and one more.
pub open spec fn line_head(line: Seq<char>) -> Seq<char> {
    if line.len() <= MAX_TEXT + 1 {
        line
    } else {
        line.take(MAX_TEXT + 1)
    }
}

/// The first line of a message that is not blank, or else the last one: its
/// head, whether it is not blank, and whether it has ended.
pub open spec fn first_said(message: Seq<char>) -> LineView
    decreases message.len(),
{
    let n = line_end(message);
    let line = message.take(n as int);
    if n >= message.len() {
        LineView { line: line_head(line), said: !is_blank(line), done: false }
    } else if is_blank(line) {
        first_said(message.skip(n as int + 1))
    } else {
        LineView { line: line_head(line), said: true, done: true }
    }
}

/// A piece without a line break only adds to the head of the line.
proof fn lemma_piece(piece: Seq<char>)
    requires
        forall|i: int| 0 <= i < piece.len() ==> piece[i] != '\n',
    ensures
        line_after_text(no_line(), piece) == (LineView {
            line: line_head(piece),
            said: !is_blank(piece),
            done: false,
        }),
    decreases piece.len(),
{
    if piece.len() > 0 {
        let p = piece.drop_last();
        assert forall|i: int| 0 <= i < p.len() implies p[i] != '\n' by {
            assert(piece[i] != '\n');
        }
        lemma_piece(p);
        assert(piece.last() != '\n');
        assert(line_after_text(no_line(), piece).line =~= line_head(piece));
        assert(is_blank(piece) <==> is_blank(p) && is_space_char(piece.last())) by {
            if is_blank(piece) {
                assert forall|i: int| 0 <= i < p.len() implies is_space_char(#[trigger] p[i]) by {
                    assert(is_space_char(piece[i]));
                }
                assert(is_space_char(piece[piece.len() - 1]));
            }
            if is_blank(p) && is_space_char(piece.last()) {
                assert forall|i: int| 0 <= i < piece.len() implies is_space_char(
                    #[trigger] piece[i],
                ) by {
                    if i < p.len() {
                        assert(is_space_char(p[i]));
                    }
                }
            }
        }
    }
}

/// What is kept of a message is the head of its first line that is not
/// blank.
pub proof fn law_first_line_is_kept(message: Seq<char>)
    ensures
        line_after_text(no_line(), message) == first_said(message),
    decreases message.len(),
{
    lemma_line_end(message);
    let n = line_end(message) as int;
    let piece = message.take(n);
    lemma_piece(piece);
    if n >= message.len() {
        assert(piece =~= message);
    } else {
        let rest = message.skip(n + 1);
        let broken = message.take(n + 1);
        assert(broken.drop_last() =~= piece);
        assert(broken.last() == '\n');
        let m = line_after_text(no_line(), broken);
        law_chunks_do_not_matter(no_line(), broken, rest);
        assert(broken + rest =~= message);
        if is_blank(piece) {
            law_first_line_is_kept(rest);
        } else {
            law_ended_line_stays(m, rest);
        }
    }
}

/// The log shows of the kept head what it would show of the whole line.
pub proof fn law_head_is_cut_like_the_line(prefix: Seq<char>, line: Seq<char>)
    ensures
        cut_text(prefix + line_head(line)) == cut_text(prefix + line),
{
    if line.len() > MAX_TEXT + 1 {
        let n = prefix.len() + MAX_TEXT + 1;
        law_cut_needs_one_more(prefix + line, n as nat);
        assert((prefix + line).take(n) =~= prefix + line_head(line));
    }
}

/// Blank lines at the start of a message count for nothing; the first line
/// that shows anything is kept, up to 200 characters and one more, and what
/// comes after it is dropped.
pub proof fn law_first_line_that_shows_is_kept(line: Seq<char>, rest: Seq<char>, i: int)
    requires
        forall|k: int| 0 <= k < line.len() ==> line[k] != '\n',
    ensures
        is_blank(line) ==> line_after_text(no_line(), line.push('\n') + rest) == line_after_text(
            no_line(),
            rest,
        ),
        0 <= i < line.len() && !is_space_char(line[i]) ==> {
            let ended = line_after_text(no_line(), line.push('\n') + rest);
            let open = line_after_text(no_line(), line);
            &&& ended.done && ended.said && !open.done && open.said
            &&& ended.line == open.line
            &&& line.len() <= 201 ==> ended.line == line
            &&& line.len() > 201 ==> ended.line == line.take(201)
        },
{
    lemma_piece(line);
    let broken = line.push('\n');
    assert(broken.drop_last() =~= line);
    law_chunks_do_not_matter(no_line(), broken, rest);
    let m = line_after_text(no_line(), broken);
    if 0 <= i < line.len() && !is_space_char(line[i]) {
        assert(!is_blank(line));
        law_ended_line_stays(m, rest);
    }
}

} // verus!
