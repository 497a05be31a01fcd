use vstd::prelude::*;
use crate::cli::{push_shown, shown};
use crate::hexfmt::{encode, hex_text, push_char};
use crate::msg::{BlockData, Event, Messages, Update};

verus! {

/// One line of a pane as text: the bytes before the position that a report
/// is about, the byte at it, the bytes from it on, and what ends the line.
pub struct Line {
    pub next: Seq<char>,
    pub curr: Seq<char>,
    pub done: Seq<char>,
    pub tail: Seq<char>,
}

/// One line of a pane, in the four parts that are drawn each in its colour.
pub struct Row {
    pub next: String,
    pub curr: String,
    pub done: String,
    pub tail: String,
}

impl View for Row {
    type V = Line;

    open spec fn view(&self) -> Line {
        Line { next: self.next@, curr: self.curr@, done: self.done@, tail: self.tail@ }
    }
}

/// The lines of a pane as text.
pub open spec fn lines(rows: Seq<Row>) -> Seq<Line> {
    rows.map_values(|r: Row| r@)
}

/// A line of a pane before any report: dots in place of the hexadecimal
/// digits of a block.
pub open spec fn blank_line(blksz: u16) -> Line {
    Line {
        next: Seq::new(2 * blksz as nat, |j: int| '.').push('\n'),
        curr: Seq::empty(),
        done: Seq::empty(),
        tail: Seq::empty(),
    }
}

/// The line that shows `block` with a report about position `index`.
pub open spec fn hex_line(block: Seq<u8>, index: int) -> Line {
    Line {
        next: hex_text(block.subrange(0, index)),
        curr: hex_text(block.subrange(index, index + 1)),
        done: hex_text(block.subrange(index, block.len() - 1)),
        tail: seq!['\n'],
    }
}

/// The line that shows a plaintext block: as `hex_line`, and in place of
/// the end of the line the block as characters.
pub open spec fn plain_line(block: Seq<u8>, index: int) -> Line {
    Line { tail: seq![' '] + shown(block) + seq!['\n'], ..hex_line(block, index) }
}

/// What the screen shows, as a value.
pub struct Screen {
    pub pyld: Seq<Line>,
    pub inter: Seq<Line>,
    pub plain: Seq<Line>,
    pub done: bool,
    pub blks: u16,
    pub blksz: u16,
}

impl Screen {
    /// The report can be shown: it is about a block that has a line, and
    /// about a position within the block.
    pub open spec fn shows(self, update: Update) -> bool {
        update.block_index < self.blks && update.index < update.block.len()
    }

    /// The screen after a report.
    pub open spec fn updated(self, event: Event) -> Screen {
        match event {
            Event::Payload(u) => Screen {
                pyld: self.pyld.update(u.block_index as int, hex_line(u.block, u.index as int)),
                ..self
            },
            Event::Intermediate(u) => Screen {
                inter: self.inter.update(u.block_index as int, hex_line(u.block, u.index as int)),
                ..self
            },
            Event::Plain(u) => Screen {
                plain: self.plain.update(
                    u.block_index as int,
                    plain_line(u.block, u.index as int),
                ),
                ..self
            },
            Event::Done => Screen { done: true, ..self },
        }
    }

    /// Whether the screen has a line for the report.
    pub open spec fn accepts(self, event: Event) -> bool {
        match event {
            Event::Payload(u) => self.shows(u),
            Event::Intermediate(u) => self.shows(u),
            Event::Plain(u) => self.shows(u),
            Event::Done => true,
        }
    }
}

/// The state of the screen: three panes with a line for each block, for the
/// forged block under test, for the intermediate block and for the
/// plaintext.
pub struct ScreenCtx {
    pyld_txt: Vec<Row>,
    inter_txt: Vec<Row>,
    plain_txt: Vec<Row>,
    done: bool,
    blks: u16,
    blksz: u16,
}

impl View for ScreenCtx {
    type V = Screen;

    closed spec fn view(&self) -> Screen {
        Screen {
            pyld: lines(self.pyld_txt@),
            inter: lines(self.inter_txt@),
            plain: lines(self.plain_txt@),
            done: self.done,
            blks: self.blks,
            blksz: self.blksz,
        }
    }
}

fn blank_rows(blks: u16, blksz: u16) -> (rows: Vec<Row>)
    ensures
        lines(rows@) == Seq::new(blks as nat, |k: int| blank_line(blksz)),
{
    let mut rows: Vec<Row> = Vec::new();
    let mut k: u16 = 0;
    while k < blks
        invariant
            k <= blks,
            lines(rows@) == Seq::new(k as nat, |k: int| blank_line(blksz)),
        decreases blks - k,
    {
        let mut next: String = String::new();
        let mut n: u32 = 0;
        while n < 2 * (blksz as u32)
            invariant
                n <= 2 * blksz,
                next@ == Seq::new(n as nat, |j: int| '.'),
            decreases 2 * blksz - n,
        {
            push_char(&mut next, '.');
            proof {
                assert(next@ =~= Seq::new((n + 1) as nat, |j: int| '.'));
            }
            n += 1;
        }
        push_char(&mut next, '\n');
        let row = Row { next, curr: String::new(), done: String::new(), tail: String::new() };
        proof {
            assert(row@.curr =~= Seq::<char>::empty());
            assert(row@ == blank_line(blksz));
        }
        let ghost before = rows@;
        rows.push(row);
        proof {
            assert(lines(rows@) =~= lines(before).push(blank_line(blksz)));
            assert(lines(rows@) =~= Seq::new((k + 1) as nat, |k: int| blank_line(blksz)));
        }
        k += 1;
    }
    rows
}

/// The line that shows the block of `data` with its position picked out.
fn stylize_hex(data: &BlockData, tail: String) -> (row: Row)
    requires
        data@.index < data@.block.len(),
    ensures
        row@ == (Line { tail: tail@, ..hex_line(data@.block, data@.index as int) }),
{
    let blk: &[u8] = data.block().as_slice();
    let i: usize = data.index() as usize;
    Row {
        next: encode(vstd::slice::slice_subrange(blk, 0, i)),
        curr: encode(vstd::slice::slice_subrange(blk, i, i + 1)),
        done: encode(vstd::slice::slice_subrange(blk, i, blk.len() - 1)),
        tail,
    }
}

impl ScreenCtx {
    /// The screen has a line in each pane for each of its blocks.
    pub closed spec fn wf(&self) -> bool {
        &&& self.pyld_txt@.len() == self.blks
        &&& self.inter_txt@.len() == self.blks
        &&& self.plain_txt@.len() == self.blks
    }

    /// A screen for `blks` blocks of `blksz` bytes, with nothing to show yet.
    pub fn new(blks: u16, blksz: u16) -> (screen: Self)
        ensures
            screen.wf(),
            screen@ == (Screen {
                pyld: Seq::new(blks as nat, |k: int| blank_line(blksz)),
                inter: Seq::new(blks as nat, |k: int| blank_line(blksz)),
                plain: Seq::new(blks as nat, |k: int| blank_line(blksz)),
                done: false,
                blks,
                blksz,
            }),
    {
        let screen = ScreenCtx {
            pyld_txt: blank_rows(blks, blksz),
            inter_txt: blank_rows(blks, blksz),
            plain_txt: blank_rows(blks, blksz),
            done: false,
            blks,
            blksz,
        };
        proof {
            assert(lines(screen.pyld_txt@).len() == blks);
            assert(lines(screen.inter_txt@).len() == blks);
            assert(lines(screen.plain_txt@).len() == blks);
        }
        screen
    }

    /// Takes a report in: the line of its block, in the pane of its kind,
    /// shows the block with the position picked out.
    pub fn update(&mut self, msg: Messages)
        requires
            old(self).wf(),
            old(self)@.accepts(msg@),
        ensures
            final(self).wf(),
            final(self)@ == old(self)@.updated(msg@),
    {
        match msg {
            Messages::Payload(p) => {
                let mut tail: String = String::new();
                push_char(&mut tail, '\n');
                let row = stylize_hex(&p, tail);
                let ghost before = self.pyld_txt@;
                self.pyld_txt[p.block_index()] = row;
                proof {
                    assert(row@.tail =~= seq!['\n']);
                    assert(lines(self.pyld_txt@) =~= lines(before).update(
                        p@.block_index as int,
                        hex_line(p@.block, p@.index as int),
                    ));
                }
            },
            Messages::Intermediate(i) => {
                let mut tail: String = String::new();
                push_char(&mut tail, '\n');
                let row = stylize_hex(&i, tail);
                let ghost before = self.inter_txt@;
                self.inter_txt[i.block_index()] = row;
                proof {
                    assert(row@.tail =~= seq!['\n']);
                    assert(lines(self.inter_txt@) =~= lines(before).update(
                        i@.block_index as int,
                        hex_line(i@.block, i@.index as int),
                    ));
                }
            },
            Messages::Plain(p) => {
                let mut txt: String = String::new();
                push_char(&mut txt, ' ');
                push_shown(&mut txt, p.block().as_slice());
                push_char(&mut txt, '\n');
                let row = stylize_hex(&p, txt);
                let ghost before = self.plain_txt@;
                self.plain_txt[p.block_index()] = row;
                proof {
                    assert(row@.tail =~= seq![' '] + shown(p@.block) + seq!['\n']);
                    assert(lines(self.plain_txt@) =~= lines(before).update(
                        p@.block_index as int,
                        plain_line(p@.block, p@.index as int),
                    ));
                }
            },
            Messages::Done => {
                self.done = true;
            },
        }
    }

    /// Whether every block has been dealt with.
    pub fn done(&self) -> (done: bool)
        ensures
            done == self@.done,
    {
        self.done
    }

    pub fn blks(&self) -> (blks: u16)
        ensures
            blks == self@.blks,
    {
        self.blks
    }

    pub fn blksz(&self) -> (blksz: u16)
        ensures
            blksz == self@.blksz,
    {
        self.blksz
    }

    /// The pane of the forged blocks.
    pub fn pyld_txt(&self) -> (rows: &Vec<Row>)
        ensures
            lines(rows@) == self@.pyld,
    {
        &self.pyld_txt
    }

    /// The pane of the intermediate blocks.
    pub fn inter_txt(&self) -> (rows: &Vec<Row>)
        ensures
            lines(rows@) == self@.inter,
    {
        &self.inter_txt
    }

    /// The pane of the plaintext.
    pub fn plain_txt(&self) -> (rows: &Vec<Row>)
        ensures
            lines(rows@) == self@.plain,
    {
        &self.plain_txt
    }
}

} // verus!
