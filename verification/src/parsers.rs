//! The parsing functions: the matchers of single tokens and the grammar
//! rules built from them.
//!
//! Each takes what remains of the token stream and either returns what
//! remains after it together with what it read, or fails without having
//! taken anything.

use vstd::prelude::*;
use vstd::slice::slice_subrange;
use crate::ast::{
    field_views, stmt_views, EventField, EventFieldView, Module, ModuleStmt, ModuleStmtView,
};
use crate::errors::{raise, wrap, ErrorKind, Frame, Label, ParseError};
use crate::grammar::{
    event_def, event_def_context, event_field, event_fields, field_shape, file, fits, kind_at,
    leading_newlines, mismatch, module_stmt, module_stmts, Expect, Outcome,
};
use crate::text::same_text;
use crate::tokens::{lexemes, TokenInfo, TokenType};

verus! {

pub type TokenRef<'a> = &'a TokenInfo<'a>;

pub type TokenSlice<'a> = &'a [TokenInfo<'a>];

pub type TokenResult<'a, O, E> = Result<(TokenSlice<'a>, O), E>;

/// What a matcher that asks `expect` of the next token returns on `input`:
/// the token and the input after it if the token is there and fits, else
/// the error made at `input` from the condition that failed.
pub open spec fn takes<'a, E: ParseError<'a>>(
    input: Seq<TokenInfo<'a>>,
    expect: Expect,
    r: TokenResult<'a, TokenRef<'a>, E>,
) -> bool {
    if input.len() > 0 && fits(input[0]@, expect) {
        r matches Ok((rest, token)) && rest@ == input.skip(1) && *token == input[0]
    } else {
        r matches Err(e) && e@ == E::from_kind(input, kind_at(lexemes(input), 0))
    }
}

/// What a rule returns on `input` when the grammar gives it `outcome`: on a
/// match the node and the input after the tokens it took, on a failure the
/// error that reports it.
pub open spec fn agrees<'a, T: View, E: ParseError<'a>>(
    input: Seq<TokenInfo<'a>>,
    outcome: Outcome<T::V>,
    r: TokenResult<'a, T, E>,
) -> bool {
    match outcome {
        Outcome::Match { node, len } => {
            r matches Ok((rest, built)) && rest@ == input.skip(len as int) && built@ == node
        },
        Outcome::Fail { failure } => r matches Err(e) && e@ == raise::<E>(input, failure),
    }
}

/// Parse a single token from a token slice.
pub fn one_token<'a, E: ParseError<'a>>(input: TokenSlice<'a>) -> (r: TokenResult<
    'a,
    TokenRef<'a>,
    E,
>)
    ensures
        match r {
            Ok((rest, token)) => input@.len() > 0 && rest@ == input@.skip(1) && *token == input@[0],
            Err(e) => input@.len() == 0 && e@ == E::from_kind(input@, ErrorKind::Eof),
        },
{
    if input.len() == 0 {
        Err(E::from_error_kind(input, ErrorKind::Eof))
    } else {
        Ok((slice_subrange(input, 1, input.len()), &input[0]))
    }
}

/// Parse a token of a specific type from a token slice.
pub fn token<'a, E: ParseError<'a>>(typ: TokenType, input: TokenSlice<'a>) -> (r: TokenResult<
    'a,
    TokenRef<'a>,
    E,
>)
    ensures
        takes(input@, Expect::of_type(typ), r),
{
    match one_token::<E>(input) {
        Ok((rest, token)) => {
            if token.typ == typ {
                Ok((rest, token))
            } else {
                Err(E::from_error_kind(input, ErrorKind::Verify))
            }
        },
        Err(e) => Err(e),
    }
}

/// Parse a name token from a token slice.
pub fn name_token<'a, E: ParseError<'a>>(input: TokenSlice<'a>) -> (r: TokenResult<
    'a,
    TokenRef<'a>,
    E,
>)
    ensures
        takes(input@, Expect::of_type(TokenType::NAME), r),
{
    token(TokenType::NAME, input)
}

/// Parse a name token containing a specific string from a token slice.
pub fn name_string<'a, E: ParseError<'a>>(string: &str, input: TokenSlice<'a>) -> (r: TokenResult<
    'a,
    TokenRef<'a>,
    E,
>)
    ensures
        takes(input@, Expect::with_text(TokenType::NAME, string@), r),
{
    match name_token::<E>(input) {
        Ok((rest, token)) => {
            if same_text(token.string, string) {
                Ok((rest, token))
            } else {
                Err(E::from_error_kind(input, ErrorKind::Verify))
            }
        },
        Err(e) => Err(e),
    }
}

/// Parse an op token from a token slice.
pub fn op_token<'a, E: ParseError<'a>>(input: TokenSlice<'a>) -> (r: TokenResult<
    'a,
    TokenRef<'a>,
    E,
>)
    ensures
        takes(input@, Expect::of_type(TokenType::OP), r),
{
    token(TokenType::OP, input)
}

/// Parse an op token containing a specific string from a token slice.
pub fn op_string<'a, E: ParseError<'a>>(string: &str, input: TokenSlice<'a>) -> (r: TokenResult<
    'a,
    TokenRef<'a>,
    E,
>)
    ensures
        takes(input@, Expect::with_text(TokenType::OP, string@), r),
{
    match op_token::<E>(input) {
        Ok((rest, token)) => {
            if same_text(token.string, string) {
                Ok((rest, token))
            } else {
                Err(E::from_error_kind(input, ErrorKind::Verify))
            }
        },
        Err(e) => Err(e),
    }
}

/// Parse a number token from a token slice.
pub fn number_token<'a, E: ParseError<'a>>(input: TokenSlice<'a>) -> (r: TokenResult<
    'a,
    TokenRef<'a>,
    E,
>)
    ensures
        takes(input@, Expect::of_type(TokenType::NUMBER), r),
{
    token(TokenType::NUMBER, input)
}

/// Parse a string token from a token slice.
pub fn string_token<'a, E: ParseError<'a>>(input: TokenSlice<'a>) -> (r: TokenResult<
    'a,
    TokenRef<'a>,
    E,
>)
    ensures
        takes(input@, Expect::of_type(TokenType::STRING), r),
{
    token(TokenType::STRING, input)
}

/// Parse an indent token from a token slice.
pub fn indent_token<'a, E: ParseError<'a>>(input: TokenSlice<'a>) -> (r: TokenResult<
    'a,
    TokenRef<'a>,
    E,
>)
    ensures
        takes(input@, Expect::of_type(TokenType::INDENT), r),
{
    token(TokenType::INDENT, input)
}

/// Parse a dedent token from a token slice.
pub fn dedent_token<'a, E: ParseError<'a>>(input: TokenSlice<'a>) -> (r: TokenResult<
    'a,
    TokenRef<'a>,
    E,
>)
    ensures
        takes(input@, Expect::of_type(TokenType::DEDENT), r),
{
    token(TokenType::DEDENT, input)
}

/// Parse a grammatically significant newline token from a token slice.
pub fn newline_token<'a, E: ParseError<'a>>(input: TokenSlice<'a>) -> (r: TokenResult<
    'a,
    TokenRef<'a>,
    E,
>)
    ensures
        takes(input@, Expect::of_type(TokenType::NEWLINE), r),
{
    token(TokenType::NEWLINE, input)
}

/// Parse an endmarker token from a token slice.
pub fn endmarker_token<'a, E: ParseError<'a>>(input: TokenSlice<'a>) -> (r: TokenResult<
    'a,
    TokenRef<'a>,
    E,
>)
    ensures
        takes(input@, Expect::of_type(TokenType::ENDMARKER), r),
{
    token(TokenType::ENDMARKER, input)
}

/// The lexemes of what remains after `k` tokens are the lexemes that remain
/// after `k` lexemes.
proof fn lemma_lexemes_skip<'a>(input: Seq<TokenInfo<'a>>, k: int)
    requires
        0 <= k <= input.len(),
    ensures
        lexemes(input.skip(k)) == lexemes(input).skip(k),
{
    assert(lexemes(input.skip(k)) =~= lexemes(input).skip(k));
}

/// Parse an event field definition into an `EventField` object.
pub fn parse_event_field<'a, E: ParseError<'a>>(input: TokenSlice<'a>) -> (r: TokenResult<
    'a,
    EventField,
    E,
>)
    ensures
        agrees(input@, event_field(lexemes(input@)), r),
{
    proof {
        reveal_with_fuel(mismatch, 5);
        assert(input@.skip(0) =~= input@);
    }
    let (i, name) = match name_token::<E>(input) {
        Ok(step) => step,
        Err(e) => {
            return Err(e);
        },
    };
    proof {
        lemma_lexemes_skip(input@, 1);
    }
    let (i, _) = match op_string::<E>(":", i) {
        Ok(step) => step,
        Err(e) => {
            return Err(e);
        },
    };
    proof {
        assert(i@ =~= input@.skip(2));
        lemma_lexemes_skip(input@, 2);
    }
    let (i, typ) = match name_token::<E>(i) {
        Ok(step) => step,
        Err(e) => {
            return Err(e);
        },
    };
    proof {
        assert(i@ =~= input@.skip(3));
        lemma_lexemes_skip(input@, 3);
    }
    let (i, _) = match newline_token::<E>(i) {
        Ok(step) => step,
        Err(e) => {
            return Err(e);
        },
    };
    assert(i@ =~= input@.skip(4));
    Ok((i, EventField { name: name.string.to_owned(), typ: typ.string.to_owned() }))
}

/// Parse one event field or more, as many as there are.
///
/// With no field at the start of the input, the error is the one of the
/// failed field with `ErrorKind::Many1` added at the input.
fn parse_event_fields<'a, E: ParseError<'a>>(input: TokenSlice<'a>) -> (r: TokenResult<
    'a,
    Vec<EventField>,
    E,
>)
    ensures
        match r {
            Ok((rest, fields)) => {
                &&& fields@.len() > 0
                &&& field_views(fields@) == event_fields(lexemes(input@))
                &&& 4 * fields@.len() <= input@.len()
                &&& rest@ == input@.skip(4 * fields@.len() as int)
            },
            Err(e) => {
                &&& event_fields(lexemes(input@)).len() == 0
                &&& event_field(lexemes(input@)) matches Outcome::Fail { failure }
                &&& e@ == E::appended(input@, ErrorKind::Many1, raise::<E>(input@, failure))
            },
        },
{
    let ghost ts = lexemes(input@);
    let (first_rest, first) = match parse_event_field::<E>(input) {
        Ok(step) => step,
        Err(e) => {
            return Err(E::append(input, ErrorKind::Many1, e));
        },
    };
    let mut cur = first_rest;
    let mut fields: Vec<EventField> = Vec::new();
    fields.push(first);
    proof {
        reveal_with_fuel(mismatch, 5);
        lemma_lexemes_skip(input@, 4);
        assert(field_views(fields@) + event_fields(lexemes(cur@)) =~= event_fields(ts));
    }
    loop
        invariant
            ts == lexemes(input@),
            fields@.len() > 0,
            4 * fields@.len() <= input@.len(),
            cur@ == input@.skip(4 * fields@.len() as int),
            event_fields(ts) == field_views(fields@) + event_fields(lexemes(cur@)),
        decreases cur@.len(),
    {
        let ghost before = fields@;
        match parse_event_field::<E>(cur) {
            Ok((rest, field)) => {
                proof {
                    reveal_with_fuel(mismatch, 5);
                    lemma_lexemes_skip(cur@, 4);
                    assert(rest@ =~= input@.skip(4 * (before.len() + 1) as int));
                    assert(field_views(before.push(field)) =~= field_views(before) + seq![field@]);
                    assert(field_views(before.push(field)) + event_fields(lexemes(rest@))
                        =~= field_views(before) + event_fields(lexemes(cur@)));
                }
                fields.push(field);
                cur = rest;
            },
            Err(_) => {
                proof {
                    assert(field_views(fields@) + Seq::<EventFieldView>::empty() =~= field_views(
                        fields@,
                    ));
                }
                return Ok((cur, fields));
            },
        }
    }
}

/// Parse an event definition statement into a `ModuleStmt::EventDef` object.
pub fn parse_event_def<'a, E: ParseError<'a>>(input: TokenSlice<'a>) -> (r: TokenResult<
    'a,
    ModuleStmt,
    E,
>)
    ensures
        agrees(input@, event_def(lexemes(input@)), r),
        r matches Ok((rest, stmt)) ==> stmt@.wf(),
{
    let ghost ts = lexemes(input@);
    proof {
        reveal_with_fuel(mismatch, 6);
        assert(input@.skip(0) =~= input@);
    }
    // "event" name ":" <newline>
    let (i, _) = match name_string::<E>("event", input) {
        Ok(step) => step,
        Err(e) => {
            return Err(e);
        },
    };
    proof {
        lemma_lexemes_skip(input@, 1);
    }
    let (i, name) = match name_token::<E>(i) {
        Ok(step) => step,
        Err(e) => {
            return Err(e);
        },
    };
    proof {
        assert(i@ =~= input@.skip(2));
        lemma_lexemes_skip(input@, 2);
    }
    let (i, _) = match op_string::<E>(":", i) {
        Ok(step) => step,
        Err(e) => {
            return Err(e);
        },
    };
    proof {
        assert(i@ =~= input@.skip(3));
        lemma_lexemes_skip(input@, 3);
    }
    let (i, _) = match newline_token::<E>(i) {
        Ok(step) => step,
        Err(e) => {
            return Err(e);
        },
    };
    proof {
        assert(i@ =~= input@.skip(4));
        lemma_lexemes_skip(input@, 4);
    }
    // <indent> event_field+ <dedent>
    let (i, _) = match indent_token::<E>(i) {
        Ok(step) => step,
        Err(e) => {
            return Err(e);
        },
    };
    proof {
        assert(i@ =~= input@.skip(5));
        lemma_lexemes_skip(input@, 5);
    }
    let ghost block = i@;
    let (i, fields) = match parse_event_fields::<E>(i) {
        Ok(step) => step,
        Err(e) => {
            proof {
                let at = mismatch(ts.skip(5), field_shape(), 0);
                let frame = Frame { at: 5, label: Label::Kind(ErrorKind::Many1) };
                let outer = Seq::<Frame>::empty().push(frame);
                let base = E::from_kind(input@.skip(5 + at as int), kind_at(ts, 5 + at));
                assert(outer.drop_last() =~= Seq::<Frame>::empty());
                assert(block.skip(at as int) =~= input@.skip(5 + at as int));
                assert(wrap::<E>(input@, base, Seq::<Frame>::empty()) == base);
                assert(wrap::<E>(input@, base, outer) == E::appended(
                    block,
                    ErrorKind::Many1,
                    base,
                ));
            }
            return Err(e);
        },
    };
    proof {
        assert(i@ =~= input@.skip(5 + 4 * fields@.len() as int));
        lemma_lexemes_skip(input@, 5 + 4 * fields@.len() as int);
        assert(i@.skip(0) =~= i@);
    }
    let (i, _) = match dedent_token::<E>(i) {
        Ok(step) => step,
        Err(e) => {
            return Err(e);
        },
    };
    proof {
        assert(i@ =~= input@.skip(5 + 4 * fields@.len() as int + 1));
    }
    Ok((i, ModuleStmt::EventDef { name: name.string.to_owned(), fields }))
}

/// Parse a module statement, such as an event or contract definition, into a `ModuleStmt` object.
pub fn parse_module_stmt<'a, E: ParseError<'a>>(input: TokenSlice<'a>) -> (r: TokenResult<
    'a,
    ModuleStmt,
    E,
>)
    ensures
        agrees(input@, module_stmt(lexemes(input@)), r),
        r matches Ok((rest, stmt)) ==> stmt@.wf(),
{
    match parse_event_def::<E>(input) {
        Ok(step) => Ok(step),
        Err(e) => {
            proof {
                let failure = event_def(lexemes(input@))->failure;
                let frame = Frame { at: 0, label: Label::Context(event_def_context()) };
                assert(failure.outer.push(frame).drop_last() =~= failure.outer);
                assert(input@.skip(0) =~= input@);
            }
            Err(E::add_context(input, "expected event definition", e))
        },
    }
}

/// Take the NEWLINE tokens at the start of the input, as many as there are.
fn skip_newlines<'a, E: ParseError<'a>>(input: TokenSlice<'a>) -> (rest: TokenSlice<'a>)
    ensures
        leading_newlines(lexemes(input@)) <= input@.len(),
        rest@ == input@.skip(leading_newlines(lexemes(input@)) as int),
{
    let mut cur = input;
    let ghost mut taken: nat = 0;
    proof {
        assert(input@.skip(0) =~= input@);
    }
    loop
        invariant
            taken <= input@.len(),
            cur@ == input@.skip(taken as int),
            leading_newlines(lexemes(input@)) == taken + leading_newlines(lexemes(cur@)),
        decreases cur@.len(),
    {
        match newline_token::<E>(cur) {
            Ok((rest, _)) => {
                proof {
                    lemma_lexemes_skip(cur@, 1);
                    assert(rest@ =~= input@.skip(taken + 1 as int));
                    taken = taken + 1;
                }
                cur = rest;
            },
            Err(_) => {
                return cur;
            },
        }
    }
}

/// Parse module statements, as many as there are.
fn parse_module_stmts<'a, E: ParseError<'a>>(input: TokenSlice<'a>) -> (r: (
    TokenSlice<'a>,
    Vec<ModuleStmt>,
))
    ensures
        stmt_views(r.1@) == module_stmts(lexemes(input@)).nodes,
        module_stmts(lexemes(input@)).len <= input@.len(),
        r.0@ == input@.skip(module_stmts(lexemes(input@)).len as int),
        forall|i: int| 0 <= i < r.1@.len() ==> (#[trigger] r.1@[i])@.wf(),
{
    let ghost all = module_stmts(lexemes(input@));
    let mut cur = input;
    let mut body: Vec<ModuleStmt> = Vec::new();
    let ghost mut taken: nat = 0;
    proof {
        assert(input@.skip(0) =~= input@);
        assert(stmt_views(body@) + module_stmts(lexemes(cur@)).nodes =~= all.nodes);
    }
    loop
        invariant
            all == module_stmts(lexemes(input@)),
            taken <= input@.len(),
            cur@ == input@.skip(taken as int),
            all.nodes == stmt_views(body@) + module_stmts(lexemes(cur@)).nodes,
            all.len == taken + module_stmts(lexemes(cur@)).len,
            forall|i: int| 0 <= i < body@.len() ==> (#[trigger] body@[i])@.wf(),
        decreases cur@.len(),
    {
        let ghost before = body@;
        match parse_module_stmt::<E>(cur) {
            Ok((rest, stmt)) => {
                proof {
                    let len = module_stmt(lexemes(cur@))->len;
                    lemma_lexemes_skip(cur@, len as int);
                    assert(rest@ =~= input@.skip(taken + len as int));
                    assert(stmt_views(before.push(stmt)) =~= stmt_views(before) + seq![stmt@]);
                    assert(stmt_views(before.push(stmt)) + module_stmts(lexemes(rest@)).nodes
                        =~= stmt_views(before) + module_stmts(lexemes(cur@)).nodes);
                    taken = taken + len;
                }
                body.push(stmt);
                cur = rest;
            },
            Err(_) => {
                proof {
                    assert(stmt_views(body@) + Seq::<ModuleStmtView>::empty() =~= stmt_views(
                        body@,
                    ));
                }
                return (cur, body);
            },
        }
    }
}

/// Parse a vyper source file into a `Module` AST object.
pub fn parse_file<'a, E: ParseError<'a>>(input: TokenSlice<'a>) -> (r: TokenResult<'a, Module, E>)
    ensures
        agrees(input@, file(lexemes(input@)), r),
        r matches Ok((rest, module)) ==> module@.wf(),
{
    let ghost ts = lexemes(input@);
    // Consume any leading newlines
    let i = skip_newlines::<E>(input);
    proof {
        lemma_lexemes_skip(input@, leading_newlines(ts) as int);
    }
    // module_stmt*
    let (i, body) = parse_module_stmts::<E>(i);
    let ghost end = leading_newlines(ts) + module_stmts(ts.skip(leading_newlines(ts) as int)).len;
    proof {
        assert(i@ =~= input@.skip(end as int));
        lemma_lexemes_skip(input@, end as int);
        assert(i@.skip(0) =~= i@);
    }
    // <endmarker>
    let (i, _) = match endmarker_token::<E>(i) {
        Ok(step) => step,
        Err(e) => {
            return Err(e);
        },
    };
    proof {
        assert(i@ =~= input@.skip(end + 1 as int));
    }
    Ok((i, Module { body }))
}

} // verus!
