//! Source files: contents, the lines they fall into, and their tokens.

use vstd::prelude::*;

use crate::ascii::NEWLINE;
use crate::domain::{FileId, FileType};
use crate::token::{RawToken, TokenView};

verus! {

/// The number of newlines among the first `offset` bytes of `contents`, which is
/// the number of the line that `offset` falls on, counted from zero.
pub open spec fn newlines_before(contents: Seq<u8>, offset: int) -> nat
    decreases offset,
{
    if offset <= 0 {
        0
    } else {
        newlines_before(contents, offset - 1) + if offset <= contents.len() && contents[offset - 1]
            == NEWLINE {
            1nat
        } else {
            0nat
        }
    }
}

/// The start of the line that `offset` falls on: just behind the last newline
/// before `offset`, or the start of the file.
pub open spec fn line_start(contents: Seq<u8>, offset: int) -> int
    decreases offset,
{
    if offset <= 0 {
        0
    } else if offset <= contents.len() && contents[offset - 1] == NEWLINE {
        offset
    } else {
        line_start(contents, offset - 1)
    }
}

/// `start` is where line number `line` begins.
pub open spec fn begins_line(contents: Seq<u8>, line: int, start: int) -> bool {
    &&& 0 <= start <= contents.len()
    &&& newlines_before(contents, start) == line
    &&& start == 0 || contents[start - 1] == NEWLINE
}

/// `lines` lists where each line of `contents` begins, in order.
pub open spec fn lists_lines(contents: Seq<u8>, lines: Seq<u32>) -> bool {
    &&& lines.len() == newlines_before(contents, contents.len() as int) + 1
    &&& forall|k: int| 0 <= k < lines.len() ==> begins_line(contents, k, #[trigger] lines[k] as int)
}

/// Every token lies inside the file, and they come in order and do not overlap.
pub open spec fn tokens_fit(tokens: Seq<RawToken>, length: nat) -> bool {
    &&& forall|i: int|
        0 <= i < tokens.len() ==> (#[trigger] tokens[i]).start <= tokens[i].end <= length
    &&& forall|i: int, j: int|
        0 <= i < j < tokens.len() ==> (#[trigger] tokens[i]).end <= (#[trigger] tokens[j]).start
}

/// The tokens with the stretches of `contents` that they cover.
pub open spec fn with_texts(contents: Seq<u8>, tokens: Seq<RawToken>) -> Seq<TokenView> {
    Seq::new(
        tokens.len(),
        |i: int|
            TokenView {
                kind: tokens[i].kind,
                start: tokens[i].start,
                value: contents.subrange(tokens[i].start as int, tokens[i].end as int),
            },
    )
}

pub proof fn lemma_newlines_grow(contents: Seq<u8>, low: int, high: int)
    requires
        low <= high,
    ensures
        newlines_before(contents, low) <= newlines_before(contents, high),
        high >= contents.len() && low >= contents.len() ==> newlines_before(contents, low)
            == newlines_before(contents, high),
        0 <= low ==> newlines_before(contents, high) <= newlines_before(contents, low) + (high
            - low),
    decreases high - low,
{
    if low < high {
        lemma_newlines_grow(contents, low, high - 1);
    }
}

/// Two offsets fall on the same line exactly when no newline stands between them.
pub proof fn law_same_line(contents: Seq<u8>, low: int, high: int)
    requires
        0 <= low <= high <= contents.len(),
    ensures
        newlines_before(contents, low) == newlines_before(contents, high) <==> forall|i: int|
            low <= i < high ==> contents[i] != NEWLINE,
    decreases high - low,
{
    if low < high {
        law_same_line(contents, low, high - 1);
        lemma_newlines_grow(contents, low, high - 1);
        lemma_newlines_grow(contents, high - 1, high);
        if newlines_before(contents, low) != newlines_before(contents, high) {
            if newlines_before(contents, low) != newlines_before(contents, high - 1) {
                let i = choose|i: int| low <= i < high - 1 && contents[i] == NEWLINE;
                assert(low <= i < high && contents[i] == NEWLINE);
            } else {
                assert(contents[high - 1] == NEWLINE);
            }
        } else {
            assert(newlines_before(contents, low) == newlines_before(contents, high - 1));
            assert(contents[high - 1] != NEWLINE);
        }
    }
}

/// The line that `offset` falls on begins at [`line_start`].
pub proof fn lemma_line_start_begins_line(contents: Seq<u8>, offset: int)
    requires
        0 <= offset,
    ensures
        begins_line(
            contents,
            newlines_before(contents, offset) as int,
            line_start(contents, offset),
        ),
        0 <= line_start(contents, offset) <= offset,
    decreases offset,
{
    if offset > 0 && !(offset <= contents.len() && contents[offset - 1] == NEWLINE) {
        lemma_line_start_begins_line(contents, offset - 1);
    }
}

/// A line begins at one place only.
pub proof fn lemma_line_begins_once(contents: Seq<u8>, line: int, one: int, other: int)
    requires
        begins_line(contents, line, one),
        begins_line(contents, line, other),
    ensures
        one == other,
{
    if one < other {
        lemma_newlines_grow(contents, one, other - 1);
    } else if other < one {
        lemma_newlines_grow(contents, other, one - 1);
    }
}

/// A source file of the workspace.
#[derive(Debug)]
pub struct File {
    pub id: FileId,
    /// How the editor addresses the file, when it can.
    pub uri: Option<String>,
    pub file_type: FileType,
    pub contents: Vec<u8>,
    /// Where each line begins.
    pub lines: Vec<u32>,
    /// The tokens of `contents`.
    pub tokens: Vec<RawToken>,
}

impl File {
    /// The file can be addressed with 32-bit offsets, its line table lists its
    /// lines, and its tokens fit its contents.
    pub open spec fn wf(self) -> bool {
        &&& self.contents@.len() <= u32::MAX
        &&& lists_lines(self.contents@, self.lines@)
        &&& tokens_fit(self.tokens@, self.contents@.len())
    }

    /// The tokens with their texts.
    pub open spec fn token_seq(self) -> Seq<TokenView> {
        with_texts(self.contents@, self.tokens@)
    }

    /// A file with its line table worked out, or `None` when it is too long for
    /// 32-bit offsets or `tokens` do not fit `contents`.
    pub fn new(
        id: FileId,
        uri: Option<String>,
        file_type: FileType,
        contents: Vec<u8>,
        tokens: Vec<RawToken>,
    ) -> (file: Option<File>)
        ensures
            file is Some <==> contents@.len() <= u32::MAX && tokens_fit(
                tokens@,
                contents@.len(),
            ),
            file matches Some(file) ==> file.wf() && file.id == id && file.uri == uri
                && file.file_type == file_type && file.contents == contents && file.tokens
                == tokens,
    {
        if contents.len() > u32::MAX as usize || !fits(&tokens, contents.len()) {
            return None;
        }
        let lines = line_table(&contents);
        Some(File { id, uri, file_type, contents, lines, tokens })
    }

    /// The number of the line that `offset` falls on, counted from zero. An
    /// offset past the end falls on the last line.
    pub fn line_number(&self, offset: u32) -> (line: u32)
        requires
            self.wf(),
        ensures
            line == newlines_before(self.contents@, offset as int),
    {
        let mut low: usize = 0;
        let mut high: usize = self.lines.len();
        while low + 1 < high
            invariant
                self.wf(),
                low < high <= self.lines@.len(),
                self.lines@[low as int] <= offset,
                high < self.lines@.len() ==> offset < self.lines@[high as int],
            decreases high - low,
        {
            let middle: usize = low + (high - low) / 2;
            if self.lines[middle] <= offset {
                low = middle;
            } else {
                high = middle;
            }
        }
        proof {
            let contents = self.contents@;
            let begin = self.lines@[low as int] as int;
            lemma_newlines_grow(contents, begin, offset as int);
            if high < self.lines@.len() {
                let next = self.lines@[high as int] as int;
                assert(begins_line(contents, high as int, next));
                lemma_newlines_grow(contents, offset as int, next - 1);
            } else if offset <= contents.len() {
                lemma_newlines_grow(contents, offset as int, contents.len() as int);
            } else {
                lemma_newlines_grow(contents, contents.len() as int, offset as int);
            }
            lemma_newlines_grow(contents, 0, contents.len() as int);
        }
        low as u32
    }

    /// Where line number `line` begins, or `None` when the file has no such line.
    pub fn get_line_start_offset(&self, line: u32) -> (start: Option<u32>)
        requires
            self.wf(),
        ensures
            match start {
                Some(start) => begins_line(self.contents@, line as int, start as int),
                None => line > newlines_before(self.contents@, self.contents@.len() as int),
            },
    {
        if (line as usize) < self.lines.len() {
            Some(self.lines[line as usize])
        } else {
            None
        }
    }

    /// Where the line that `offset` falls on begins.
    pub fn line_start_at(&self, offset: u32) -> (start: u32)
        requires
            self.wf(),
        ensures
            start == line_start(self.contents@, offset as int),
            start <= self.contents@.len(),
    {
        let line: u32 = self.line_number(offset);
        proof {
            let contents = self.contents@;
            lemma_line_start_begins_line(contents, offset as int);
            if offset <= contents.len() {
                lemma_newlines_grow(contents, offset as int, contents.len() as int);
            } else {
                lemma_newlines_grow(contents, contents.len() as int, offset as int);
            }
        }
        match self.get_line_start_offset(line) {
            Some(start) => {
                proof {
                    lemma_line_begins_once(
                        self.contents@,
                        line as int,
                        start as int,
                        line_start(self.contents@, offset as int),
                    );
                }
                start
            },
            None => 0,
        }
    }
}

/// Do `tokens` fit a file of `length` bytes?
fn fits(tokens: &Vec<RawToken>, length: usize) -> (yes: bool)
    ensures
        yes == tokens_fit(tokens@, length as nat),
{
    let mut i: usize = 0;
    while i < tokens.len()
        invariant
            i <= tokens@.len(),
            tokens_fit(tokens@.take(i as int), length as nat),
        decreases tokens.len() - i,
    {
        let token = tokens[i];
        if token.start > token.end || token.end as usize > length {
            assert(tokens@[i as int] == token);
            return false;
        }
        if i > 0 && tokens[i - 1].end > token.start {
            assert(tokens@[i - 1].end > tokens@[i as int].start);
            return false;
        }
        proof {
            let longer = tokens@.take(i + 1);
            let shorter = tokens@.take(i as int);
            assert forall|k: int| 0 <= k < longer.len() implies (#[trigger] longer[k]).start
                <= longer[k].end <= length by {
                if k < i {
                    assert(shorter[k] == longer[k]);
                }
            }
            assert forall|k: int, l: int| 0 <= k < l < longer.len() implies (
            #[trigger] longer[k]).end <= (#[trigger] longer[l]).start by {
                if l < i {
                    assert(shorter[k] == longer[k] && shorter[l] == longer[l]);
                } else {
                    assert(shorter[k] == longer[k] && shorter[i - 1] == longer[i - 1]);
                }
            }
        }
        i += 1;
    }
    assert(tokens@.take(i as int) =~= tokens@);
    true
}

/// Where each line of `contents` begins.
fn line_table(contents: &Vec<u8>) -> (lines: Vec<u32>)
    requires
        contents@.len() <= u32::MAX,
    ensures
        lists_lines(contents@, lines@),
{
    let mut lines: Vec<u32> = Vec::new();
    lines.push(0);
    let mut i: usize = 0;
    while i < contents.len()
        invariant
            i <= contents@.len() <= u32::MAX,
            lines@.len() == newlines_before(contents@, i as int) + 1,
            forall|k: int|
                0 <= k < lines@.len() ==> begins_line(contents@, k, #[trigger] lines@[k] as int),
        decreases contents.len() - i,
    {
        i += 1;
        if contents[i - 1] == NEWLINE {
            lines.push(i as u32);
        }
    }
    lines
}

} // verus!
