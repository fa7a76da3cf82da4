//! The reader of stack-machine source text.
//!
//! A source is a sequence of lines. Blank lines and lines that start with
//! `//` carry nothing; every other line holds one command. The grammar is
//! given by the spec functions of this module, and [`Parser`] reads
//! a text by it, one command per call.

use vstd::prelude::*;
use vstd::string::StringExecFns;
use vstd::string::StrSliceExecFns;
use crate::chars::{
    char_is_alphabetic,
    char_is_whitespace,
    is_alphabetic,
    is_whitespace,
    parse_i16,
};
use crate::scanner::{line_number, Scanner};
use crate::transform::{TransformError, TransformErrorView, TransformResult};

verus! {

/// The memory segments of the stack machine.
#[derive(Debug, Clone, Copy, PartialEq, Eq, Structural)]
pub enum Segment {
    Local,
    Constant,
    Argument,
    Temp,
    Static,
    That,
    This,
    Pointer,
}

/// The operations that work on the top of the stack alone.
#[derive(Debug, Clone, Copy, PartialEq, Eq, Structural)]
pub enum ArithmeticType {
    Add,
    Sub,
    Neg,
    Eq,
    Gt,
    Lt,
    And,
    Or,
    Not,
}

/// One command of the stack machine.
#[derive(Debug)]
pub enum CommandDetails {
    Arithmetic(ArithmeticType),
    Push(Segment, i16),
    Pop(Segment, i16),
    Label(String),
    IfGoto(String),
    Function { n_vars: i16, symbol: String },
    Return,
    Call { n_args: i16, symbol: String },
    Goto(String),
}

/// What a [`CommandDetails`] stands for.
pub enum CommandView {
    Arithmetic(ArithmeticType),
    Push(Segment, i16),
    Pop(Segment, i16),
    Label(Seq<char>),
    IfGoto(Seq<char>),
    Function { n_vars: i16, symbol: Seq<char> },
    Return,
    Call { n_args: i16, symbol: Seq<char> },
    Goto(Seq<char>),
}

impl View for CommandDetails {
    type V = CommandView;

    open spec fn view(&self) -> CommandView {
        match self {
            CommandDetails::Arithmetic(op) => CommandView::Arithmetic(*op),
            CommandDetails::Push(segment, index) => CommandView::Push(*segment, *index),
            CommandDetails::Pop(segment, index) => CommandView::Pop(*segment, *index),
            CommandDetails::Label(symbol) => CommandView::Label(symbol@),
            CommandDetails::IfGoto(symbol) => CommandView::IfGoto(symbol@),
            CommandDetails::Function { n_vars, symbol } => CommandView::Function {
                n_vars: *n_vars,
                symbol: symbol@,
            },
            CommandDetails::Return => CommandView::Return,
            CommandDetails::Call { n_args, symbol } => CommandView::Call {
                n_args: *n_args,
                symbol: symbol@,
            },
            CommandDetails::Goto(symbol) => CommandView::Goto(symbol@),
        }
    }
}

/// The first position at or after `pos` that holds no whitespace.
pub open spec fn skip_whitespace(s: Seq<char>, pos: int) -> int
    decreases s.len() - pos,
{
    if 0 <= pos < s.len() && is_whitespace(s[pos]) {
        skip_whitespace(s, pos + 1)
    } else {
        pos
    }
}

/// The first position at or after `pos` that holds whitespace, or the end.
pub open spec fn skip_word(s: Seq<char>, pos: int) -> int
    decreases s.len() - pos,
{
    if 0 <= pos < s.len() && !is_whitespace(s[pos]) {
        skip_word(s, pos + 1)
    } else {
        pos
    }
}

/// True for the characters that a symbol is made of: letters and the dot.
pub open spec fn is_symbol_char(c: char) -> bool {
    is_alphabetic(c) || c == '.'
}

/// The first position at or after `pos` that holds no symbol character.
pub open spec fn skip_symbol(s: Seq<char>, pos: int) -> int
    decreases s.len() - pos,
{
    if 0 <= pos < s.len() && is_symbol_char(s[pos]) {
        skip_symbol(s, pos + 1)
    } else {
        pos
    }
}

/// The first position at or after `pos` that holds a line feed or a
/// carriage return, or the end.
pub open spec fn line_end(s: Seq<char>, pos: int) -> int
    decreases s.len() - pos,
{
    if 0 <= pos < s.len() && s[pos] != '\n' && s[pos] != '\r' {
        line_end(s, pos + 1)
    } else {
        pos
    }
}

/// The position just after the first line feed at or after `pos`, or the end.
pub open spec fn skip_line(s: Seq<char>, pos: int) -> int
    decreases s.len() - pos,
{
    if 0 <= pos < s.len() {
        if s[pos] == '\n' {
            pos + 1
        } else {
            skip_line(s, pos + 1)
        }
    } else {
        pos
    }
}

/// The text from `pos` to the end of its line, line break excluded.
pub open spec fn line_text(s: Seq<char>, pos: int) -> Seq<char> {
    s.subrange(pos, line_end(s, pos))
}

/// True when `prefix` stands in `s` at `pos`.
pub open spec fn has_prefix(s: Seq<char>, pos: int, prefix: Seq<char>) -> bool {
    &&& 0 <= pos
    &&& pos + prefix.len() <= s.len()
    &&& s.subrange(pos, pos + prefix.len()) == prefix
}

/// The skipping functions move forward and stay inside the text.
pub proof fn lemma_skip_bounds(s: Seq<char>, pos: int)
    requires
        0 <= pos <= s.len(),
    ensures
        pos <= skip_whitespace(s, pos) <= s.len(),
        pos <= skip_word(s, pos) <= s.len(),
        pos <= skip_symbol(s, pos) <= s.len(),
        pos <= line_end(s, pos) <= s.len(),
        pos <= skip_line(s, pos) <= s.len(),
        pos < s.len() ==> pos < skip_line(s, pos),
    decreases s.len() - pos,
{
    if pos < s.len() {
        lemma_skip_bounds(s, pos + 1);
    }
}

/// The segment whose name stands at `pos`, if one does.
pub open spec fn segment_at(s: Seq<char>, pos: int) -> Option<Segment> {
    if has_prefix(s, pos, "constant"@) {
        Some(Segment::Constant)
    } else if has_prefix(s, pos, "local"@) {
        Some(Segment::Local)
    } else if has_prefix(s, pos, "argument"@) {
        Some(Segment::Argument)
    } else if has_prefix(s, pos, "this"@) {
        Some(Segment::This)
    } else if has_prefix(s, pos, "that"@) {
        Some(Segment::That)
    } else if has_prefix(s, pos, "temp"@) {
        Some(Segment::Temp)
    } else if has_prefix(s, pos, "static"@) {
        Some(Segment::Static)
    } else if has_prefix(s, pos, "pointer"@) {
        Some(Segment::Pointer)
    } else {
        None
    }
}

/// A syntax error about the command that stands at `start`: what is wrong,
/// the text of the command's line in quotes, and the number of that line,
/// counted from one.
pub open spec fn syntax_error(what: Seq<char>, line: Seq<char>, s: Seq<char>, start: int)
    -> TransformErrorView {
    TransformErrorView::SyntaxError(what + line + "'"@, line_number(s, start) as usize)
}

/// A command, or the reason why there is none, and where reading stopped.
pub struct Reading {
    pub outcome: Result<CommandView, TransformErrorView>,
    pub cursor: int,
}

/// The number that follows `pos` after any whitespace, and where it starts.
pub open spec fn integer_at(s: Seq<char>, pos: int) -> (Option<i16>, int) {
    let at = skip_whitespace(s, pos);
    (parse_i16(s.subrange(at, skip_word(s, at))), at)
}

/// Reading of `push` and `pop`: the keyword at `start`, a segment name, an
/// index.
pub open spec fn transfer_at(s: Seq<char>, start: int, push: bool) -> Reading {
    let line = line_text(s, start);
    let name_at = skip_whitespace(s, skip_word(s, start));
    match segment_at(s, name_at) {
        None => Reading {
            outcome: Err(syntax_error("Unknown segment.'"@, line, s, start)),
            cursor: name_at,
        },
        Some(segment) => {
            let (index, index_at) = integer_at(s, skip_word(s, name_at));
            match index {
                None => Reading {
                    outcome: Err(syntax_error("Invalid number.'"@, line, s, start)),
                    cursor: index_at,
                },
                Some(index) => Reading {
                    outcome: Ok(
                        if push {
                            CommandView::Push(segment, index)
                        } else {
                            CommandView::Pop(segment, index)
                        },
                    ),
                    cursor: index_at,
                },
            }
        },
    }
}

/// The symbol that follows the keyword at `start`, and the end of the word
/// in which it stands.
pub open spec fn symbol_at(s: Seq<char>, start: int) -> (Seq<char>, int) {
    let at = skip_whitespace(s, skip_word(s, start));
    let end = skip_symbol(s, at);
    (s.subrange(at, end), skip_word(s, end))
}

/// Reading of `function` and `call`: the keyword at `start`, a symbol, a
/// count.
pub open spec fn routine_at(s: Seq<char>, start: int, declaration: bool) -> Reading {
    let line = line_text(s, start);
    let (symbol, after) = symbol_at(s, start);
    let (count, count_at) = integer_at(s, after);
    match count {
        None => Reading {
            outcome: Err(syntax_error("Invalid number.'"@, line, s, start)),
            cursor: count_at,
        },
        Some(count) => Reading {
            outcome: Ok(
                if declaration {
                    CommandView::Function { n_vars: count, symbol }
                } else {
                    CommandView::Call { n_args: count, symbol }
                },
            ),
            cursor: count_at,
        },
    }
}

/// Reading of the command that starts at `start`, a position that holds
/// neither whitespace nor the start of a comment. The keyword is told by the
/// first characters alone.
pub open spec fn command_at(s: Seq<char>, start: int) -> Reading {
    let plain = |c: CommandView| Reading { outcome: Ok(c), cursor: start };
    if has_prefix(s, start, "pop"@) {
        transfer_at(s, start, false)
    } else if has_prefix(s, start, "push"@) {
        transfer_at(s, start, true)
    } else if has_prefix(s, start, "add"@) {
        plain(CommandView::Arithmetic(ArithmeticType::Add))
    } else if has_prefix(s, start, "sub"@) {
        plain(CommandView::Arithmetic(ArithmeticType::Sub))
    } else if has_prefix(s, start, "eq"@) {
        plain(CommandView::Arithmetic(ArithmeticType::Eq))
    } else if has_prefix(s, start, "lt"@) {
        plain(CommandView::Arithmetic(ArithmeticType::Lt))
    } else if has_prefix(s, start, "gt"@) {
        plain(CommandView::Arithmetic(ArithmeticType::Gt))
    } else if has_prefix(s, start, "neg"@) {
        plain(CommandView::Arithmetic(ArithmeticType::Neg))
    } else if has_prefix(s, start, "and"@) {
        plain(CommandView::Arithmetic(ArithmeticType::And))
    } else if has_prefix(s, start, "or"@) {
        plain(CommandView::Arithmetic(ArithmeticType::Or))
    } else if has_prefix(s, start, "not"@) {
        plain(CommandView::Arithmetic(ArithmeticType::Not))
    } else if has_prefix(s, start, "label"@) {
        Reading { outcome: Ok(CommandView::Label(symbol_at(s, start).0)), cursor: symbol_at(s, start).1 }
    } else if has_prefix(s, start, "if-goto"@) {
        Reading { outcome: Ok(CommandView::IfGoto(symbol_at(s, start).0)), cursor: symbol_at(s, start).1 }
    } else if has_prefix(s, start, "goto"@) {
        Reading { outcome: Ok(CommandView::Goto(symbol_at(s, start).0)), cursor: symbol_at(s, start).1 }
    } else if has_prefix(s, start, "function"@) {
        routine_at(s, start, true)
    } else if has_prefix(s, start, "call"@) {
        routine_at(s, start, false)
    } else if has_prefix(s, start, "return"@) {
        plain(CommandView::Return)
    } else {
        Reading {
            outcome: Err(syntax_error("Unimplemented command.'"@, line_text(s, start), s, start)),
            cursor: start,
        }
    }
}

/// What one call of [`Parser::next_command`] yields, and where it leaves the
/// cursor.
pub struct Step {
    /// `None` at the end of the text; otherwise the command with the text of
    /// its line, or the error.
    pub outcome: Option<Result<(CommandView, Seq<char>), TransformErrorView>>,
    /// Where the command stands, or where the text ended.
    pub start: int,
    pub cursor: int,
}

/// The next command at or after `pos`. Whitespace and comment lines are
/// passed over; the line of the command is consumed with it.
pub open spec fn next_command_at(s: Seq<char>, pos: int) -> Step
    decreases s.len() - pos,
{
    let start = skip_whitespace(s, pos);
    if !(0 <= pos <= start < s.len()) {
        Step { outcome: None, start, cursor: start }
    } else if has_prefix(s, start, "//"@) {
        proof {
            lemma_skip_bounds(s, start);
        }
        next_command_at(s, skip_line(s, start))
    } else {
        let reading = command_at(s, start);
        Step {
            outcome: Some(
                match reading.outcome {
                    Ok(command) => Ok((command, line_text(s, start))),
                    Err(error) => Err(error),
                },
            ),
            start,
            cursor: skip_line(s, reading.cursor),
        }
    }
}

/// Reading a command never moves the cursor back nor out of the text.
pub proof fn lemma_command_bounds(s: Seq<char>, start: int)
    requires
        0 <= start <= s.len(),
    ensures
        start <= command_at(s, start).cursor <= s.len(),
{
    let after_keyword = skip_word(s, start);
    lemma_skip_bounds(s, start);
    lemma_skip_bounds(s, after_keyword);
    let name_at = skip_whitespace(s, after_keyword);
    lemma_skip_bounds(s, name_at);
    let after_name = skip_word(s, name_at);
    lemma_skip_bounds(s, after_name);
    let after_symbol = skip_symbol(s, name_at);
    lemma_skip_bounds(s, after_symbol);
    let symbol_end = skip_word(s, after_symbol);
    lemma_skip_bounds(s, symbol_end);
}

/// A call of [`Parser::next_command`] that yields something moves the
/// cursor forward; every call leaves it inside the text.
pub proof fn lemma_next_command_progress(s: Seq<char>, pos: int)
    requires
        0 <= pos <= s.len(),
    ensures
        pos <= next_command_at(s, pos).cursor <= s.len(),
        next_command_at(s, pos).outcome.is_some() ==> pos < next_command_at(s, pos).cursor,
    decreases s.len() - pos,
{
    let start = skip_whitespace(s, pos);
    lemma_skip_bounds(s, pos);
    if start < s.len() {
        lemma_skip_bounds(s, start);
        if has_prefix(s, start, "//"@) {
            lemma_next_command_progress(s, skip_line(s, start));
        } else {
            lemma_command_bounds(s, start);
            lemma_skip_bounds(s, command_at(s, start).cursor);
        }
    }
}

/// The view of what [`Parser::next_command`] returns.
pub open spec fn outcome_view(r: Option<TransformResult<(CommandDetails, String)>>) -> Option<
    Result<(CommandView, Seq<char>), TransformErrorView>,
> {
    match r {
        None => None,
        Some(Ok((command, line))) => Some(Ok((command@, line@))),
        Some(Err(error)) => Some(Err(error@)),
    }
}

/// A reader of commands from a source text.
pub struct Parser {
    scanner: Scanner,
    command: usize,
}

/// What a [`Parser`] stands for: the whole text, how far it has been read,
/// and where the command that was read last stands.
pub struct ParserView {
    pub characters: Seq<char>,
    pub cursor: int,
    /// The position of the command that was read last; zero as long as
    /// none has been read.
    pub command: int,
}

impl ParserView {
    /// The same state with the cursor moved to `cursor`.
    pub open spec fn at(self, cursor: int) -> ParserView {
        ParserView { cursor, ..self }
    }
}

impl View for Parser {
    type V = ParserView;

    closed spec fn view(&self) -> ParserView {
        ParserView {
            characters: self.scanner@.characters,
            cursor: self.scanner@.cursor,
            command: self.command as int,
        }
    }
}

impl Parser {
    #[verifier::type_invariant]
    spec fn inside(&self) -> bool {
        &&& 0 <= self.scanner@.cursor <= self.scanner@.characters.len()
        &&& self.command == 0 || self.command < self.scanner@.characters.len()
    }


    /// A parser at the start of `source`.
    pub fn new(source: &str) -> (parser: Parser)
        ensures
            parser@ == (ParserView { characters: source@, cursor: 0, command: 0 }),
    {
        let mut characters: Vec<char> = Vec::new();
        for c in it: source.chars()
            invariant
                characters@ == it.seq().take(it.index() as int),
                it.seq() == source@,
        {
            characters.push(c);
        }
        assert(characters@ =~= source@);
        Parser { scanner: Scanner::new(characters), command: 0 }
    }

    /// The number of the line on which the cursor stands, counted from
    /// one. The number has to fit the machine word: see
    /// [`Scanner::line_at`].
    pub fn line(&self) -> (n: usize)
        requires
            self@.cursor < self@.characters.len() || self@.characters.len() < usize::MAX,
        ensures
            n == line_number(self@.characters, self@.cursor),
    {
        proof {
            use_type_invariant(self);
        }
        self.scanner.line()
    }

    /// The number of the line on which the command that was read last
    /// stands, counted from one.
    pub fn command_line(&self) -> (n: usize)
        ensures
            n == line_number(self@.characters, self@.command),
    {
        proof {
            use_type_invariant(self);
        }
        self.scanner.line_at(self.command)
    }

    /// The position where the line under the cursor ends.
    fn end_of_line(&self) -> (end: usize)
        ensures
            end == line_end(self@.characters, self@.cursor),
            self@.cursor <= end <= self@.characters.len(),
    {
        proof {
            use_type_invariant(self);
        }
        let start = self.scanner.cursor();
        let total = self.scanner.len();
        let mut i: usize = 0;
        loop
            invariant
                start == self.scanner@.cursor,
                total == self.scanner@.characters.len(),
                start + i <= self.scanner@.characters.len(),
                line_end(self.scanner@.characters, start as int) == line_end(
                    self.scanner@.characters,
                    start + i,
                ),
            ensures
                start + i == line_end(self.scanner@.characters, start as int),
                start + i <= self.scanner@.characters.len(),
            decreases self.scanner@.characters.len() - start - i,
        {
            match self.scanner.peek_n(i) {
                Some(c) => {
                    if *c == '\n' || *c == '\r' {
                        break ;
                    }
                },
                None => {
                    break ;
                },
            }
            i += 1;
        }
        start + i
    }

    /// The rest of the line under the cursor, line break excluded.
    pub fn peek_line(&self) -> (line: String)
        ensures
            line@ == line_text(self@.characters, self@.cursor),
    {
        proof {
            use_type_invariant(self);
        }
        let end = self.end_of_line();
        self.scanner.slice(self.scanner.cursor(), end)
    }

    /// Consumes the line under the cursor with its line feed, and returns
    /// what [`Parser::peek_line`] would have.
    pub fn consume_line(&mut self) -> (line: String)
        ensures
            line@ == line_text(old(self)@.characters, old(self)@.cursor),
            final(self)@ == old(self)@.at(skip_line(old(self)@.characters, old(self)@.cursor)),
    {
        let line = self.peek_line();
        proof {
            use_type_invariant(&*self);
        }
        loop
            invariant_except_break
                skip_line(self.scanner@.characters, old(self).scanner@.cursor) == skip_line(
                    self.scanner@.characters,
                    self.scanner@.cursor,
                ),
            invariant
                self.scanner@.characters == old(self).scanner@.characters,
                self.command == old(self).command,
                self.command == 0 || self.command < self.scanner@.characters.len(),
                0 <= old(self).scanner@.cursor <= self.scanner@.cursor
                    <= self.scanner@.characters.len(),
            ensures
                self.scanner@.characters == old(self).scanner@.characters,
                self.command == old(self).command,
                0 <= self.scanner@.cursor <= self.scanner@.characters.len(),
                self.scanner@.cursor == skip_line(
                    self.scanner@.characters,
                    old(self).scanner@.cursor,
                ),
            decreases self.scanner@.characters.len() - self.scanner@.cursor,
        {
            match self.scanner.pop() {
                Some(c) => {
                    if *c == '\n' {
                        break ;
                    }
                },
                None => {
                    break ;
                },
            }
        }
        line
    }

    /// Moves the cursor to the end of the word under it.
    pub fn consume_non_whitespace(&mut self)
        ensures
            final(self)@ == old(self)@.at(skip_word(old(self)@.characters, old(self)@.cursor)),
    {
        proof {
            use_type_invariant(&*self);
        }
        loop
            invariant
                self.scanner@.characters == old(self).scanner@.characters,
                self.command == old(self).command,
                self.command == 0 || self.command < self.scanner@.characters.len(),
                0 <= old(self).scanner@.cursor <= self.scanner@.cursor
                    <= self.scanner@.characters.len(),
                skip_word(self.scanner@.characters, old(self).scanner@.cursor) == skip_word(
                    self.scanner@.characters,
                    self.scanner@.cursor,
                ),
            ensures
                self.scanner@.characters == old(self).scanner@.characters,
                self.command == old(self).command,
                0 <= self.scanner@.cursor <= self.scanner@.characters.len(),
                self.scanner@.cursor == skip_word(
                    self.scanner@.characters,
                    old(self).scanner@.cursor,
                ),
            decreases self.scanner@.characters.len() - self.scanner@.cursor,
        {
            match self.scanner.peek() {
                Some(c) => {
                    if char_is_whitespace(*c) {
                        break ;
                    }
                },
                None => {
                    break ;
                },
            }
            let _ = self.scanner.pop();
        }
    }

    /// Moves the cursor past the whitespace under it.
    pub fn consume_whitespace(&mut self)
        ensures
            final(self)@ == old(self)@.at(
                skip_whitespace(old(self)@.characters, old(self)@.cursor),
            ),
    {
        proof {
            use_type_invariant(&*self);
        }
        loop
            invariant
                self.scanner@.characters == old(self).scanner@.characters,
                self.command == old(self).command,
                self.command == 0 || self.command < self.scanner@.characters.len(),
                0 <= old(self).scanner@.cursor <= self.scanner@.cursor
                    <= self.scanner@.characters.len(),
                skip_whitespace(self.scanner@.characters, old(self).scanner@.cursor)
                    == skip_whitespace(self.scanner@.characters, self.scanner@.cursor),
            ensures
                self.scanner@.characters == old(self).scanner@.characters,
                self.command == old(self).command,
                0 <= self.scanner@.cursor <= self.scanner@.characters.len(),
                self.scanner@.cursor == skip_whitespace(
                    self.scanner@.characters,
                    old(self).scanner@.cursor,
                ),
            decreases self.scanner@.characters.len() - self.scanner@.cursor,
        {
            match self.scanner.peek() {
                Some(c) => {
                    if !char_is_whitespace(*c) {
                        break ;
                    }
                },
                None => {
                    break ;
                },
            }
            let _ = self.scanner.pop();
        }
    }

    /// The position where the word under the cursor ends.
    fn end_of_word(&self) -> (end: usize)
        ensures
            end == skip_word(self@.characters, self@.cursor),
            self@.cursor <= end <= self@.characters.len(),
    {
        proof {
            use_type_invariant(self);
        }
        let start = self.scanner.cursor();
        let total = self.scanner.len();
        let mut i: usize = 0;
        loop
            invariant
                start == self.scanner@.cursor,
                total == self.scanner@.characters.len(),
                start + i <= self.scanner@.characters.len(),
                skip_word(self.scanner@.characters, start as int) == skip_word(
                    self.scanner@.characters,
                    start + i,
                ),
            ensures
                start + i == skip_word(self.scanner@.characters, start as int),
                start + i <= self.scanner@.characters.len(),
            decreases self.scanner@.characters.len() - start - i,
        {
            match self.scanner.peek_n(i) {
                Some(c) => {
                    if char_is_whitespace(*c) {
                        break ;
                    }
                },
                None => {
                    break ;
                },
            }
            i += 1;
        }
        start + i
    }

    /// True when `prefix` stands under the cursor.
    fn starts_with(&self, prefix: &str) -> (b: bool)
        ensures
            b == has_prefix(self@.characters, self@.cursor, prefix@),
    {
        proof {
            use_type_invariant(self);
        }
        let n = prefix.unicode_len();
        let ghost s = self.scanner@.characters;
        let ghost at = self.scanner@.cursor;
        let mut i: usize = 0;
        while i < n
            invariant
                i <= n == prefix@.len(),
                s == self.scanner@.characters,
                at == self.scanner@.cursor,
                0 <= at <= s.len(),
                at + i <= s.len(),
                s.subrange(at, at + i) == prefix@.take(i as int),
            decreases n - i,
        {
            match self.scanner.peek_n(i) {
                Some(c) => {
                    if *c != prefix.get_char(i) {
                        proof {
                            if has_prefix(s, at, prefix@) {
                                assert(s.subrange(at, at + prefix@.len())[i as int] == prefix@[i as int]);
                            }
                        }
                        return false;
                    }
                },
                None => {
                    return false;
                },
            }
            proof {
                assert(s.subrange(at, at + i + 1) =~= s.subrange(at, at + i).push(s[at + i]));
                assert(prefix@.take(i + 1) =~= prefix@.take(i as int).push(prefix@[i as int]));
            }
            i += 1;
        }
        proof {
            assert(prefix@.take(n as int) =~= prefix@);
        }
        true
    }

    /// A syntax error about the command that stands at `start`, whose line
    /// reads `line`.
    fn error_at(&self, what: &str, line: &str, start: usize) -> (error: TransformError)
        requires
            start < self@.characters.len(),
        ensures
            error@ == syntax_error(what@, line@, self@.characters, start as int),
    {
        let mut message = String::from_str(what);
        message.append(line);
        message.append("'");
        TransformError::SyntaxError(message, self.scanner.line_at(start))
    }

    /// Reads the number under the cursor after any whitespace. The cursor
    /// stops where the number starts.
    pub fn parse_integer(&mut self) -> (r: Option<i16>)
        ensures
            r == integer_at(old(self)@.characters, old(self)@.cursor).0,
            final(self)@ == old(self)@.at(integer_at(old(self)@.characters, old(self)@.cursor).1),
    {
        self.consume_whitespace();
        let end = self.end_of_word();
        self.scanner.number(self.scanner.cursor(), end)
    }

    /// Reads the segment name that follows the keyword under the cursor.
    /// `None` when no segment is named there; the cursor then stands where
    /// the name was expected, and otherwise at the end of its word.
    pub fn parse_segment(&mut self) -> (r: Option<Segment>)
        ensures
            r == segment_at(
                old(self)@.characters,
                skip_whitespace(
                    old(self)@.characters,
                    skip_word(old(self)@.characters, old(self)@.cursor),
                ),
            ),
            final(self)@ == old(self)@.at(
                {
                    let name_at = skip_whitespace(
                        old(self)@.characters,
                        skip_word(old(self)@.characters, old(self)@.cursor),
                    );
                    if r.is_some() {
                        skip_word(old(self)@.characters, name_at)
                    } else {
                        name_at
                    }
                },
            ),
    {
        self.consume_non_whitespace();
        self.consume_whitespace();
        let segment = if self.starts_with("constant") {
            Segment::Constant
        } else if self.starts_with("local") {
            Segment::Local
        } else if self.starts_with("argument") {
            Segment::Argument
        } else if self.starts_with("this") {
            Segment::This
        } else if self.starts_with("that") {
            Segment::That
        } else if self.starts_with("temp") {
            Segment::Temp
        } else if self.starts_with("static") {
            Segment::Static
        } else if self.starts_with("pointer") {
            Segment::Pointer
        } else {
            return None;
        };
        self.consume_non_whitespace();
        Some(segment)
    }

    /// Reads the symbol that follows the keyword under the cursor, and
    /// leaves the cursor at the end of the word in which the symbol stands.
    pub fn parse_label_symbol(&mut self) -> (symbol: String)
        ensures
            symbol@ == symbol_at(old(self)@.characters, old(self)@.cursor).0,
            final(self)@ == old(self)@.at(symbol_at(old(self)@.characters, old(self)@.cursor).1),
    {
        self.consume_non_whitespace();
        self.consume_whitespace();
        proof {
            use_type_invariant(&*self);
        }
        let start = self.scanner.cursor();
        let ghost s = self.scanner@.characters;
        loop
            invariant
                s == self.scanner@.characters,
                s == old(self).scanner@.characters,
                self.command == old(self).command,
                self.command == 0 || self.command < s.len(),
                0 <= start <= self.scanner@.cursor <= s.len(),
                skip_symbol(s, start as int) == skip_symbol(s, self.scanner@.cursor),
            ensures
                s == self.scanner@.characters,
                self.command == old(self).command,
                0 <= start <= self.scanner@.cursor <= s.len(),
                self.scanner@.cursor == skip_symbol(s, start as int),
            decreases s.len() - self.scanner@.cursor,
        {
            match self.scanner.peek() {
                Some(c) => {
                    if !(char_is_alphabetic(*c) || *c == '.') {
                        break ;
                    }
                },
                None => {
                    break ;
                },
            }
            let _ = self.scanner.pop();
        }
        let symbol = self.scanner.slice(start, self.scanner.cursor());
        self.consume_non_whitespace();
        symbol
    }

    /// Reads a `push` or `pop` whose keyword stands under the cursor.
    fn parse_transfer(&mut self, push: bool, line: &str) -> (r: TransformResult<CommandDetails>)
        requires
            line@ == line_text(old(self)@.characters, old(self)@.cursor),
            old(self)@.cursor < old(self)@.characters.len(),
        ensures
            final(self)@ == old(self)@.at(
                transfer_at(old(self)@.characters, old(self)@.cursor, push).cursor,
            ),
            match r {
                Ok(command) => Ok::<CommandView, TransformErrorView>(command@),
                Err(error) => Err(error@),
            } == transfer_at(old(self)@.characters, old(self)@.cursor, push).outcome,
    {
        let start = self.scanner.cursor();
        let segment = match self.parse_segment() {
            Some(segment) => segment,
            None => {
                return Err(self.error_at("Unknown segment.'", line, start));
            },
        };
        let index = match self.parse_integer() {
            Some(index) => index,
            None => {
                return Err(self.error_at("Invalid number.'", line, start));
            },
        };
        if push {
            Ok(CommandDetails::Push(segment, index))
        } else {
            Ok(CommandDetails::Pop(segment, index))
        }
    }

    /// Reads a `function` or `call` whose keyword stands under the cursor.
    fn parse_routine(&mut self, declaration: bool, line: &str) -> (r: TransformResult<
        CommandDetails,
    >)
        requires
            line@ == line_text(old(self)@.characters, old(self)@.cursor),
            old(self)@.cursor < old(self)@.characters.len(),
        ensures
            final(self)@ == old(self)@.at(
                routine_at(old(self)@.characters, old(self)@.cursor, declaration).cursor,
            ),
            match r {
                Ok(command) => Ok::<CommandView, TransformErrorView>(command@),
                Err(error) => Err(error@),
            } == routine_at(old(self)@.characters, old(self)@.cursor, declaration).outcome,
    {
        let start = self.scanner.cursor();
        let symbol = self.parse_label_symbol();
        let count = match self.parse_integer() {
            Some(count) => count,
            None => {
                return Err(self.error_at("Invalid number.'", line, start));
            },
        };
        if declaration {
            Ok(CommandDetails::Function { n_vars: count, symbol })
        } else {
            Ok(CommandDetails::Call { n_args: count, symbol })
        }
    }

    /// Reads the command whose first character stands under the cursor.
    fn parse_command(&mut self, line: &str) -> (r: TransformResult<CommandDetails>)
        requires
            line@ == line_text(old(self)@.characters, old(self)@.cursor),
            old(self)@.cursor < old(self)@.characters.len(),
        ensures
            final(self)@ == old(self)@.at(
                command_at(old(self)@.characters, old(self)@.cursor).cursor,
            ),
            match r {
                Ok(command) => Ok::<CommandView, TransformErrorView>(command@),
                Err(error) => Err(error@),
            } == command_at(old(self)@.characters, old(self)@.cursor).outcome,
    {
        let start = self.scanner.cursor();
        if self.starts_with("pop") {
            self.parse_transfer(false, line)
        } else if self.starts_with("push") {
            self.parse_transfer(true, line)
        } else if self.starts_with("add") {
            Ok(CommandDetails::Arithmetic(ArithmeticType::Add))
        } else if self.starts_with("sub") {
            Ok(CommandDetails::Arithmetic(ArithmeticType::Sub))
        } else if self.starts_with("eq") {
            Ok(CommandDetails::Arithmetic(ArithmeticType::Eq))
        } else if self.starts_with("lt") {
            Ok(CommandDetails::Arithmetic(ArithmeticType::Lt))
        } else if self.starts_with("gt") {
            Ok(CommandDetails::Arithmetic(ArithmeticType::Gt))
        } else if self.starts_with("neg") {
            Ok(CommandDetails::Arithmetic(ArithmeticType::Neg))
        } else if self.starts_with("and") {
            Ok(CommandDetails::Arithmetic(ArithmeticType::And))
        } else if self.starts_with("or") {
            Ok(CommandDetails::Arithmetic(ArithmeticType::Or))
        } else if self.starts_with("not") {
            Ok(CommandDetails::Arithmetic(ArithmeticType::Not))
        } else if self.starts_with("label") {
            Ok(CommandDetails::Label(self.parse_label_symbol()))
        } else if self.starts_with("if-goto") {
            Ok(CommandDetails::IfGoto(self.parse_label_symbol()))
        } else if self.starts_with("goto") {
            Ok(CommandDetails::Goto(self.parse_label_symbol()))
        } else if self.starts_with("function") {
            self.parse_routine(true, line)
        } else if self.starts_with("call") {
            self.parse_routine(false, line)
        } else if self.starts_with("return") {
            Ok(CommandDetails::Return)
        } else {
            Err(self.error_at("Unimplemented command.'", line, start))
        }
    }

    /// Reads the next command. `None` at the end of the text; otherwise the
    /// command together with the text of its line, or a syntax error that
    /// carries the number of the command's line. Either way the rest of the
    /// line is consumed, and the parser remembers where the command stood.
    pub fn next_command(&mut self) -> (r: Option<TransformResult<(CommandDetails, String)>>)
        ensures
            outcome_view(r) == next_command_at(old(self)@.characters, old(self)@.cursor).outcome,
            final(self)@ == (ParserView {
                characters: old(self)@.characters,
                cursor: next_command_at(old(self)@.characters, old(self)@.cursor).cursor,
                command: if r.is_some() {
                    next_command_at(old(self)@.characters, old(self)@.cursor).start
                } else {
                    old(self)@.command
                },
            }),
    {
        let ghost s = self@.characters;
        proof {
            use_type_invariant(&*self);
        }
        loop
            invariant
                self@.characters == s,
                s == old(self)@.characters,
                0 <= self@.cursor <= s.len(),
                self@.command == old(self)@.command,
                next_command_at(s, old(self)@.cursor) == next_command_at(s, self@.cursor),
            decreases s.len() - self@.cursor,
        {
            let ghost pos = self@.cursor;
            self.consume_whitespace();
            let ghost start = self@.cursor;
            proof {
                use_type_invariant(&*self);
                lemma_skip_bounds(s, pos);
                lemma_skip_bounds(s, start);
            }
            if self.scanner.is_done() {
                return None;
            }
            if self.starts_with("//") {
                let _ = self.consume_line();
                proof {
                    use_type_invariant(&*self);
                    assert(next_command_at(s, pos) == next_command_at(s, skip_line(s, start)));
                }
            } else {
                self.command = self.scanner.cursor();
                let line = self.peek_line();
                let parsed = self.parse_command(line.as_str());
                let _ = self.consume_line();
                let r = match parsed {
                    Ok(command) => Some(Ok((command, line))),
                    Err(error) => Some(Err(error)),
                };
                proof {
                    let reading = command_at(s, start);
                    assert(next_command_at(s, pos).cursor == skip_line(s, reading.cursor));
                    assert(next_command_at(s, pos).start == start);
                    assert(outcome_view(r) == next_command_at(s, pos).outcome);
                }
                return r;
            }
        }
    }
}

} // verus!
