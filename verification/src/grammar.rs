//! The grammar, as a mathematical model.
//!
//! Each rule is a function from the lexemes that remain to an [`Outcome`]:
//! the node it builds and the number of tokens it takes, or the failure it
//! reports. The parsing functions are specified against these.

use vstd::prelude::*;
use crate::ast::{EventFieldView, ModuleStmtView, ModuleView};
use crate::errors::{ErrorKind, Failure, Frame, Label};
use crate::tokens::{Lexeme, TokenType};

verus! {

/// What a rule asks of one token: its class and, for a keyword or a
/// punctuation mark, its exact text.
pub struct Expect {
    pub typ: TokenType,
    pub text: Option<Seq<char>>,
}

impl Expect {
    /// Any token of class `typ`.
    pub open spec fn of_type(typ: TokenType) -> Expect {
        Expect { typ, text: None }
    }

    /// The token of class `typ` whose text is exactly `text`.
    pub open spec fn with_text(typ: TokenType, text: Seq<char>) -> Expect {
        Expect { typ, text: Some(text) }
    }
}

/// Whether `lexeme` is what `expect` asks for. Texts are compared as they
/// stand: case matters and nothing is normalized.
pub open spec fn fits(lexeme: Lexeme, expect: Expect) -> bool {
    &&& lexeme.typ == expect.typ
    &&& expect.text matches Some(text) ==> lexeme.text == text
}

/// The first index from `from` on at which `ts` departs from `shape`: the
/// index of the first token that is missing or does not fit, or the length
/// of `shape` if there is none.
pub open spec fn mismatch(ts: Seq<Lexeme>, shape: Seq<Expect>, from: nat) -> nat
    decreases shape.len() - from,
{
    if from >= shape.len() || from >= ts.len() || !fits(ts[from as int], shape[from as int]) {
        from
    } else {
        mismatch(ts, shape, from + 1)
    }
}

/// The condition reported when the token at index `at` of `ts` was required
/// and is missing or unfit.
pub open spec fn kind_at(ts: Seq<Lexeme>, at: nat) -> ErrorKind {
    if at >= ts.len() {
        ErrorKind::Eof
    } else {
        ErrorKind::Verify
    }
}

/// What a rule does on the lexemes that remain.
pub enum Outcome<T> {
    /// It builds `node` from the first `len` tokens.
    Match { node: T, len: nat },
    /// It takes nothing and reports `failure`.
    Fail { failure: Failure },
}

/// The label that a failed module statement carries.
pub open spec fn event_def_context() -> Seq<char> {
    "expected event definition"@
}

/// The tokens of an event field: a name, a colon, the name of a type, the
/// end of the line.
pub open spec fn field_shape() -> Seq<Expect> {
    seq![
        Expect::of_type(TokenType::NAME),
        Expect::with_text(TokenType::OP, ":"@),
        Expect::of_type(TokenType::NAME),
        Expect::of_type(TokenType::NEWLINE),
    ]
}

/// The tokens that open an event definition: the keyword `event`, a name, a
/// colon, the end of the line, and the start of the block of fields.
pub open spec fn header_shape() -> Seq<Expect> {
    seq![
        Expect::with_text(TokenType::NAME, "event"@),
        Expect::of_type(TokenType::NAME),
        Expect::with_text(TokenType::OP, ":"@),
        Expect::of_type(TokenType::NEWLINE),
        Expect::of_type(TokenType::INDENT),
    ]
}

/// The rule for one event field.
pub open spec fn event_field(ts: Seq<Lexeme>) -> Outcome<EventFieldView> {
    let at = mismatch(ts, field_shape(), 0);
    if at == 4 {
        Outcome::Match { node: EventFieldView { name: ts[0].text, typ: ts[2].text }, len: 4 }
    } else {
        Outcome::Fail { failure: Failure::bare(at, kind_at(ts, at)) }
    }
}

/// The fields that stand one after another at the start of `ts`, as many as
/// there are. Each takes four tokens.
pub open spec fn event_fields(ts: Seq<Lexeme>) -> Seq<EventFieldView>
    decreases ts.len(),
{
    match event_field(ts) {
        Outcome::Match { node, len } => {
            proof {
                reveal_with_fuel(mismatch, 5);
            }
            seq![node] + event_fields(ts.skip(4))
        },
        Outcome::Fail { failure } => Seq::empty(),
    }
}

/// The rule for an event definition: the header, one field or more, and the
/// end of the block.
pub open spec fn event_def(ts: Seq<Lexeme>) -> Outcome<ModuleStmtView> {
    let head = mismatch(ts, header_shape(), 0);
    let fields = event_fields(ts.skip(5));
    let end = 5 + 4 * fields.len();
    if head < 5 {
        Outcome::Fail { failure: Failure::bare(head, kind_at(ts, head)) }
    } else if fields.len() == 0 {
        let at = 5 + mismatch(ts.skip(5), field_shape(), 0);
        Outcome::Fail {
            failure: Failure::bare(at, kind_at(ts, at)).within(
                Frame { at: 5, label: Label::Kind(ErrorKind::Many1) },
            ),
        }
    } else if end < ts.len() && ts[end as int].typ == TokenType::DEDENT {
        Outcome::Match {
            node: ModuleStmtView::EventDef { name: ts[1].text, fields },
            len: end + 1,
        }
    } else {
        Outcome::Fail { failure: Failure::bare(end, kind_at(ts, end)) }
    }
}

/// The rule for a module statement: an event definition, the only kind
/// there is. A failure says so.
pub open spec fn module_stmt(ts: Seq<Lexeme>) -> Outcome<ModuleStmtView> {
    match event_def(ts) {
        Outcome::Match { node, len } => Outcome::Match { node, len },
        Outcome::Fail { failure } => Outcome::Fail {
            failure: failure.within(Frame { at: 0, label: Label::Context(event_def_context()) }),
        },
    }
}

/// Nodes read one after another, and the number of tokens they took.
pub struct Run<T> {
    pub nodes: Seq<T>,
    pub len: nat,
}

/// The module statements that stand one after another at the start of `ts`,
/// as many as there are.
pub open spec fn module_stmts(ts: Seq<Lexeme>) -> Run<ModuleStmtView>
    decreases ts.len(),
{
    match module_stmt(ts) {
        Outcome::Match { node, len } => {
            let more = module_stmts(ts.skip(len as int));
            Run { nodes: seq![node] + more.nodes, len: len + more.len }
        },
        Outcome::Fail { failure } => Run { nodes: Seq::empty(), len: 0 },
    }
}

/// The number of NEWLINE tokens at the start of `ts`.
pub open spec fn leading_newlines(ts: Seq<Lexeme>) -> nat
    decreases ts.len(),
{
    if ts.len() > 0 && ts[0].typ == TokenType::NEWLINE {
        1 + leading_newlines(ts.skip(1))
    } else {
        0
    }
}

/// The rule for a source file: blank lines, then module statements as many
/// as there are, then the end marker.
pub open spec fn file(ts: Seq<Lexeme>) -> Outcome<ModuleView> {
    let blank = leading_newlines(ts);
    let body = module_stmts(ts.skip(blank as int));
    let end = blank + body.len;
    if end < ts.len() && ts[end as int].typ == TokenType::ENDMARKER {
        Outcome::Match { node: ModuleView { body: body.nodes }, len: end + 1 }
    } else {
        Outcome::Fail { failure: Failure::bare(end, kind_at(ts, end)) }
    }
}

} // verus!
