//! What holds of the grammar as a whole, proved over its model.

use vstd::prelude::*;
use crate::ast::{EventFieldView, Module, ModuleStmtView, ModuleView};
use crate::errors::{
    raise, wrap, ErrorKind, Failure, Frame, Label, ParseError, SimpleError, SimpleFailure,
    VerboseError,
};
use crate::grammar::{
    event_def, event_field, event_fields, field_shape, file, header_shape, kind_at, leading_newlines,
    mismatch, module_stmts, Outcome, Run,
};
use crate::parsers::{agrees, TokenResult};
use crate::tokens::{is_significant, lexemes, significant, Lexeme, TokenInfo, TokenType};

verus! {

/// A run of tokens none of which takes part in the grammar leaves nothing
/// behind when it is filtered.
proof fn lemma_blank_run_vanishes<'a>(run: Seq<TokenInfo<'a>>)
    requires
        forall|i: int| 0 <= i < run.len() ==> !is_significant(#[trigger] run[i].typ),
    ensures
        significant(run).len() == 0,
    decreases run.len(),
{
    reveal(Seq::filter);
    if run.len() > 0 {
        lemma_blank_run_vanishes(run.drop_last());
    }
}

/// A source that holds nothing but blank lines and comments parses to the
/// empty module: if every token before the end marker is one that the
/// filter removes, then the filtered stream is the end marker alone, and
/// the file rule takes it and builds a module without statements.
pub proof fn lemma_blank_source_is_empty_module<'a>(raw: Seq<TokenInfo<'a>>)
    requires
        raw.len() > 0,
        raw.last().typ == TokenType::ENDMARKER,
        forall|i: int| 0 <= i < raw.len() - 1 ==> !is_significant(#[trigger] raw[i].typ),
    ensures
        significant(raw) == seq![raw.last()],
        file(lexemes(significant(raw))) == (Outcome::Match {
            node: ModuleView { body: Seq::empty() },
            len: 1,
        }),
{
    let blank = raw.drop_last();
    lemma_blank_run_vanishes(blank);
    assert(raw =~= blank.push(raw.last()));
    blank.lemma_filter_push(raw.last(), |t: TokenInfo<'a>| is_significant(t.typ));
    assert(significant(raw) =~= seq![raw.last()]);
    let ts = lexemes(significant(raw));
    assert(ts.len() == 1 && ts[0].typ == TokenType::ENDMARKER);
    assert(leading_newlines(ts) == 0);
    assert(ts.skip(0) =~= ts);
    assert(mismatch(ts, header_shape(), 0) == 0);
    assert(module_stmts(ts).len == 0);
    assert(module_stmts(ts).nodes =~= Seq::<ModuleStmtView>::empty());
}

/// Blank lines and comments leave no trace: a token that the filter removes
/// can be put anywhere into the output of the tokenizer without changing
/// what the grammar gets to read, and so without changing what the file rule
/// makes of it.
pub proof fn lemma_insignificant_token_leaves_no_trace<'a>(
    raw: Seq<TokenInfo<'a>>,
    i: int,
    blank: TokenInfo<'a>,
)
    requires
        0 <= i <= raw.len(),
        !is_significant(blank.typ),
    ensures
        significant(raw.insert(i, blank)) == significant(raw),
        file(lexemes(significant(raw.insert(i, blank)))) == file(lexemes(significant(raw))),
{
    let keep = |t: TokenInfo<'a>| is_significant(t.typ);
    let front = raw.take(i);
    let back = raw.skip(i);
    assert(raw =~= front + back);
    assert(raw.insert(i, blank) =~= front.push(blank) + back);
    front.lemma_filter_push(blank, keep);
    Seq::filter_distributes_over_add(front, back, keep);
    Seq::filter_distributes_over_add(front.push(blank), back, keep);
}

/// The tree depends on the classes and texts of the significant tokens and
/// on nothing else: two token streams with the same lexemes, whatever the
/// places of their tokens in the source, are both accepted or both refused
/// by the file rule, and if accepted give the same module and leave equally
/// many tokens.
pub proof fn lemma_same_lexemes_same_tree<'a, 'b, E1: ParseError<'a>, E2: ParseError<'b>>(
    a: Seq<TokenInfo<'a>>,
    b: Seq<TokenInfo<'b>>,
    ra: TokenResult<'a, Module, E1>,
    rb: TokenResult<'b, Module, E2>,
)
    requires
        lexemes(a) == lexemes(b),
        agrees(a, file(lexemes(a)), ra),
        agrees(b, file(lexemes(b)), rb),
    ensures
        ra is Ok <==> rb is Ok,
        ra matches Ok((rest_a, module_a)) ==> rb matches Ok((rest_b, module_b)) && module_a@
            == module_b@ && rest_a@.len() == rest_b@.len(),
{
    assert(a.len() == lexemes(a).len());
    assert(b.len() == lexemes(b).len());
}

/// There are no more leading NEWLINE tokens than tokens.
proof fn lemma_leading_newlines_bounded(ts: Seq<Lexeme>)
    ensures
        leading_newlines(ts) <= ts.len(),
    decreases ts.len(),
{
    if ts.len() > 0 && ts[0].typ == TokenType::NEWLINE {
        lemma_leading_newlines_bounded(ts.skip(1));
    }
}

/// A NEWLINE token before the first statement is skipped: the file rule
/// does on the whole input what it does on the input after that token, one
/// token further on.
pub proof fn lemma_leading_newline_is_skipped(ts: Seq<Lexeme>)
    requires
        ts.len() > 0,
        ts[0].typ == TokenType::NEWLINE,
    ensures
        match file(ts.skip(1)) {
            Outcome::Match { node, len } => file(ts) == (Outcome::Match { node, len: len + 1 }),
            Outcome::Fail { failure } => file(ts) == (Outcome::<ModuleView>::Fail {
                failure: Failure::bare(failure.at + 1, failure.kind),
            }),
        },
{
    let blank = leading_newlines(ts.skip(1));
    lemma_leading_newlines_bounded(ts.skip(1));
    assert(leading_newlines(ts) == blank + 1);
    assert(ts.skip(1).skip(blank as int) =~= ts.skip(blank + 1 as int));
}

/// Whether the four lexemes of `ts` from index `at` on spell out the event
/// field `field`: its name, a colon, the name of its type, and the end of
/// the line.
pub open spec fn spells_field(ts: Seq<Lexeme>, at: int, field: EventFieldView) -> bool {
    &&& 0 <= at
    &&& at + 4 <= ts.len()
    &&& ts[at] == Lexeme { typ: TokenType::NAME, text: field.name }
    &&& ts[at + 1] == Lexeme { typ: TokenType::OP, text: ":"@ }
    &&& ts[at + 2] == Lexeme { typ: TokenType::NAME, text: field.typ }
    &&& ts[at + 3].typ == TokenType::NEWLINE
}

/// Whether the lexemes `ts` spell out the definition of the event `name`
/// with the fields `fields`: the header line, the start of the block, the
/// fields in their order, and the end of the block.
pub open spec fn spells_event(ts: Seq<Lexeme>, name: Seq<char>, fields: Seq<EventFieldView>) -> bool {
    &&& ts.len() == 6 + 4 * fields.len()
    &&& ts[0] == Lexeme { typ: TokenType::NAME, text: "event"@ }
    &&& ts[1] == Lexeme { typ: TokenType::NAME, text: name }
    &&& ts[2] == Lexeme { typ: TokenType::OP, text: ":"@ }
    &&& ts[3].typ == TokenType::NEWLINE
    &&& ts[4].typ == TokenType::INDENT
    &&& forall|i: int|
        0 <= i < fields.len() ==> spells_field(ts, 5 + 4 * i, #[trigger] fields[i])
    &&& ts[5 + 4 * fields.len() as int].typ == TokenType::DEDENT
}

/// The number of tokens that spell out `stmt`.
pub open spec fn stmt_len(stmt: ModuleStmtView) -> nat {
    match stmt {
        ModuleStmtView::EventDef { name, fields } => 6 + 4 * fields.len(),
    }
}

/// Whether the lexemes `ts` spell out the statement `stmt`.
pub open spec fn spells_stmt(ts: Seq<Lexeme>, stmt: ModuleStmtView) -> bool {
    match stmt {
        ModuleStmtView::EventDef { name, fields } => spells_event(ts, name, fields),
    }
}

/// Whether the lexemes `ts` spell out a source file with the statements
/// `stmts`: each statement in its order, with nothing between them, and the
/// end marker.
pub open spec fn spells_file(ts: Seq<Lexeme>, stmts: Seq<ModuleStmtView>) -> bool
    decreases stmts.len(),
{
    if stmts.len() == 0 {
        ts.len() == 1 && ts[0].typ == TokenType::ENDMARKER
    } else {
        let len = stmt_len(stmts[0]);
        &&& len <= ts.len()
        &&& spells_stmt(ts.take(len as int), stmts[0])
        &&& spells_file(ts.skip(len as int), stmts.drop_first())
    }
}

/// Fields that are spelled out one after another and followed by the end of
/// the block are read back as they are, all of them and in their order.
proof fn lemma_fields_round_trip(ts: Seq<Lexeme>, fields: Seq<EventFieldView>)
    requires
        ts.len() > 4 * fields.len(),
        forall|i: int| 0 <= i < fields.len() ==> spells_field(ts, 4 * i, #[trigger] fields[i]),
        ts[4 * fields.len() as int].typ == TokenType::DEDENT,
    ensures
        event_fields(ts) == fields,
    decreases fields.len(),
{
    reveal_with_fuel(mismatch, 5);
    if fields.len() == 0 {
        assert(event_fields(ts) =~= fields);
    } else {
        assert(spells_field(ts, 0, fields[0]));
        assert(event_field(ts) == (Outcome::Match { node: fields[0], len: 4 }));
        let more = fields.drop_first();
        assert forall|i: int| 0 <= i < more.len() implies spells_field(
            ts.skip(4),
            4 * i,
            #[trigger] more[i],
        ) by {
            assert(spells_field(ts, 4 * (i + 1), fields[i + 1]));
        }
        lemma_fields_round_trip(ts.skip(4), more);
        assert(seq![fields[0]] + more =~= fields);
    }
}

/// An event definition with one field or more is read back as it was
/// written: whatever follows it, the rule for event definitions takes
/// exactly the tokens that spell it out and builds the event with its name
/// and with all its fields in the order of their declaration.
pub proof fn lemma_event_def_round_trip(
    ts: Seq<Lexeme>,
    name: Seq<char>,
    fields: Seq<EventFieldView>,
    rest: Seq<Lexeme>,
)
    requires
        fields.len() >= 1,
        spells_event(ts, name, fields),
    ensures
        event_def(ts + rest) == (Outcome::Match {
            node: ModuleStmtView::EventDef { name, fields },
            len: ts.len(),
        }),
{
    let all = ts + rest;
    reveal_with_fuel(mismatch, 6);
    assert(mismatch(all, header_shape(), 0) == 5);
    let block = all.skip(5);
    assert forall|i: int| 0 <= i < fields.len() implies spells_field(
        block,
        4 * i,
        #[trigger] fields[i],
    ) by {
        assert(spells_field(ts, 5 + 4 * i, fields[i]));
    }
    lemma_fields_round_trip(block, fields);
}

/// A source file is read back as it was written: if the lexemes spell out
/// statements, each an event with one field or more, followed by the end
/// marker, then the file rule takes them all and builds the module with
/// exactly these statements in their order.
pub proof fn lemma_file_round_trip(ts: Seq<Lexeme>, module: ModuleView)
    requires
        module.wf(),
        spells_file(ts, module.body),
    ensures
        file(ts) == (Outcome::Match { node: module, len: ts.len() }),
{
    lemma_stmts_round_trip(ts, module.body);
    assert(ts.len() > 0);
    assert(ts[0].typ != TokenType::NEWLINE) by {
        if module.body.len() > 0 {
            let len = stmt_len(module.body[0]);
            assert(ts.take(len as int)[0] == ts[0]);
        }
    }
    assert(leading_newlines(ts) == 0);
    assert(ts.skip(0) =~= ts);
}

/// Statements that are spelled out one after another and followed by the end
/// marker are read back as they are, and the end marker is left.
proof fn lemma_stmts_round_trip(ts: Seq<Lexeme>, stmts: Seq<ModuleStmtView>)
    requires
        forall|i: int| 0 <= i < stmts.len() ==> (#[trigger] stmts[i]).wf(),
        spells_file(ts, stmts),
    ensures
        module_stmts(ts) == (Run { nodes: stmts, len: (ts.len() - 1) as nat }),
        ts.len() > 0,
        ts.last().typ == TokenType::ENDMARKER,
    decreases stmts.len(),
{
    if stmts.len() == 0 {
        assert(mismatch(ts, header_shape(), 0) == 0);
        assert(module_stmts(ts).nodes =~= stmts);
    } else {
        let len = stmt_len(stmts[0]);
        let head = ts.take(len as int);
        let tail = ts.skip(len as int);
        assert(ts =~= head + tail);
        match stmts[0] {
            ModuleStmtView::EventDef { name, fields } => {
                lemma_event_def_round_trip(head, name, fields, tail);
            },
        }
        lemma_stmts_round_trip(tail, stmts.drop_first());
        assert(seq![stmts[0]] + stmts.drop_first() =~= stmts);
    }
}

/// An event has fields: the rule for event definitions builds no event
/// without a field, and where the block of fields ends as soon as it has
/// started, the rule fails there, with the condition of the field that was
/// missing inside that of the repetition.
pub proof fn lemma_event_without_fields_fails(ts: Seq<Lexeme>)
    ensures
        event_def(ts) matches Outcome::Match { node, len } ==> node.wf(),
        mismatch(ts, header_shape(), 0) == 5 && ts.len() > 5 && ts[5].typ == TokenType::DEDENT
            ==> event_def(ts) == (Outcome::<ModuleStmtView>::Fail {
            failure: Failure::bare(5, ErrorKind::Verify).within(
                Frame { at: 5, label: Label::Kind(ErrorKind::Many1) },
            ),
        }),
{
    reveal_with_fuel(mismatch, 6);
    if mismatch(ts, header_shape(), 0) == 5 && ts.len() > 5 && ts[5].typ == TokenType::DEDENT {
        assert(mismatch(ts.skip(5), field_shape(), 0) == 0);
    }
}

/// The lexemes of the smallest event definition: a header, one field, and
/// the end of the block, with empty texts wherever the grammar leaves the
/// text free.
pub open spec fn smallest_event() -> Seq<Lexeme> {
    seq![
        Lexeme { typ: TokenType::NAME, text: "event"@ },
        Lexeme { typ: TokenType::NAME, text: Seq::empty() },
        Lexeme { typ: TokenType::OP, text: ":"@ },
        Lexeme { typ: TokenType::NEWLINE, text: Seq::empty() },
        Lexeme { typ: TokenType::INDENT, text: Seq::empty() },
        Lexeme { typ: TokenType::NAME, text: Seq::empty() },
        Lexeme { typ: TokenType::OP, text: ":"@ },
        Lexeme { typ: TokenType::NAME, text: Seq::empty() },
        Lexeme { typ: TokenType::NEWLINE, text: Seq::empty() },
        Lexeme { typ: TokenType::DEDENT, text: Seq::empty() },
    ]
}

/// The fields at the start of `ts` take four tokens each, and they are
/// found again where the end of the block follows them at once.
proof fn lemma_fields_then_dedent(ts: Seq<Lexeme>, dedent: Lexeme)
    requires
        dedent.typ == TokenType::DEDENT,
    ensures
        4 * event_fields(ts).len() <= ts.len(),
        event_fields(ts.take(4 * event_fields(ts).len() as int).push(dedent)) == event_fields(ts),
    decreases ts.len(),
{
    reveal_with_fuel(mismatch, 5);
    let n = event_fields(ts).len();
    match event_field(ts) {
        Outcome::Match { node, len } => {
            let more = ts.skip(4);
            lemma_fields_then_dedent(more, dedent);
            let m = event_fields(more).len();
            assert(n == m + 1);
            let cut = ts.take(4 * n as int).push(dedent);
            assert(cut[0] == ts[0] && cut[1] == ts[1] && cut[2] == ts[2] && cut[3] == ts[3]);
            assert(event_field(cut) == event_field(ts));
            assert(cut.skip(4) =~= more.take(4 * m as int).push(dedent));
        },
        Outcome::Fail { failure } => {
            let cut = ts.take(0).push(dedent);
            assert(cut[0] == dedent);
            assert(event_field(cut) is Fail);
        },
    }
}

/// Where the rule for event definitions gives up is where the sequence of
/// its parts breaks off. When it fails on `ts` and reports the place `at`:
/// the place lies within the input, and the condition is the end of input
/// exactly if the input ends there; the tokens before `at` are the start of
/// an event definition that some continuation completes; if `at` lies in the
/// header or in the first field, nothing that starts with the tokens up to
/// and including the one at `at` is an event definition; and if it lies
/// further on, the token at `at` is not the end of the block.
pub proof fn lemma_event_def_failure_place(ts: Seq<Lexeme>)
    requires
        event_def(ts) is Fail,
    ensures
        ({
            let failure = event_def(ts)->failure;
            let at = failure.at as int;
            &&& at <= ts.len()
            &&& failure.kind == kind_at(ts, failure.at)
            &&& exists|more: Seq<Lexeme>| #[trigger] event_def(ts.take(at) + more) is Match
            &&& at < 9 && at < ts.len() ==> forall|more: Seq<Lexeme>| #[trigger]
                event_def(ts.take(at + 1) + more) is Fail
            &&& at >= 9 && at < ts.len() ==> ts[at].typ != TokenType::DEDENT
        }),
{
    reveal_with_fuel(mismatch, 6);
    let failure = event_def(ts)->failure;
    let at = failure.at as int;
    let head = mismatch(ts, header_shape(), 0);
    let fields = event_fields(ts.skip(5));
    if head == 5 {
        lemma_fields_then_dedent(ts.skip(5), smallest_event()[9]);
    }
    if head < 5 || fields.len() == 0 {
        // The failure lies in the header or in the first field.
        assert(at < 9);
        let more = smallest_event().skip(at);
        let whole = ts.take(at) + more;
        let field = EventFieldView { name: whole[5].text, typ: whole[7].text };
        assert(whole.len() == 10);
        assert forall|i: int| 0 <= i < 10 implies whole[i] == (if i < at {
            ts[i]
        } else {
            smallest_event()[i]
        }) by {}
        assert(head == 5 ==> mismatch(ts.skip(5), field_shape(), 0) == at - 5);
        assert(spells_field(whole, 5, field));
        assert(spells_event(whole, whole[1].text, seq![field]));
        lemma_event_def_round_trip(whole, whole[1].text, seq![field], Seq::empty());
        assert(whole + Seq::<Lexeme>::empty() =~= whole);
        assert(event_def(ts.take(at) + more) is Match);
        if at < ts.len() {
            assert forall|more: Seq<Lexeme>| #[trigger]
                event_def(ts.take(at + 1) + more) is Fail by {
                let other = ts.take(at + 1) + more;
                assert forall|i: int| 0 <= i <= at implies other[i] == ts[i] by {}
                if head < 5 {
                    assert(mismatch(other, header_shape(), 0) == head);
                } else {
                    assert(mismatch(other, header_shape(), 0) == 5);
                    assert forall|i: int| 0 <= i <= at - 5 implies other.skip(5)[i] == ts.skip(
                        5,
                    )[i] by {}
                    assert(mismatch(other.skip(5), field_shape(), 0) == at - 5);
                    assert(event_fields(other.skip(5)).len() == 0);
                }
            }
        }
    } else {
        // The fields were read and the end of the block is missing.
        let dedent = smallest_event()[9];
        let more = seq![dedent];
        let whole = ts.take(at) + more;
        assert(whole.len() == at + 1);
        assert forall|i: int| 0 <= i < at implies whole[i] == ts[i] by {}
        assert(mismatch(whole, header_shape(), 0) == 5);
        assert(whole.skip(5) =~= ts.skip(5).take(4 * fields.len() as int).push(dedent));
        assert(whole[at] == dedent);
        assert(event_def(ts.take(at) + more) is Match);
    }
}

/// A simple error reports the innermost place and condition of a failure:
/// what remains of the input after the tokens that precede the place where
/// the rule gave up, and the condition that failed there.
pub proof fn lemma_simple_error_reports_place<'a>(input: Seq<TokenInfo<'a>>, failure: Failure)
    ensures
        raise::<SimpleError<'a>>(input, failure) == (SimpleFailure {
            rest: input.skip(failure.at as int),
            kind: failure.kind,
        }),
{
    let base = SimpleFailure { rest: input.skip(failure.at as int), kind: failure.kind };
    lemma_simple_wrap(input, base, failure.outer);
}

/// What enclosing rules add leaves a simple error as it is.
proof fn lemma_simple_wrap<'a>(
    input: Seq<TokenInfo<'a>>,
    inner: SimpleFailure<'a>,
    outer: Seq<Frame>,
)
    ensures
        wrap::<SimpleError<'a>>(input, inner, outer) == inner,
    decreases outer.len(),
{
    if outer.len() > 0 {
        lemma_simple_wrap(input, inner, outer.drop_last());
    }
}

/// The trail of a failure as a verbose error holds it: the innermost place
/// and condition first, then the entry of each enclosing rule, each with
/// what remains of the input at its place.
pub open spec fn trail<'a>(input: Seq<TokenInfo<'a>>, failure: Failure) -> Seq<
    (Seq<TokenInfo<'a>>, Label),
> {
    seq![(input.skip(failure.at as int), Label::Kind(failure.kind))] + Seq::new(
        failure.outer.len(),
        |i: int| (input.skip(failure.outer[i].at as int), failure.outer[i].label),
    )
}

/// A verbose error reports the whole trail of a failure, innermost first.
pub proof fn lemma_verbose_error_reports_trail<'a>(input: Seq<TokenInfo<'a>>, failure: Failure)
    ensures
        raise::<VerboseError<'a>>(input, failure) == trail(input, failure),
    decreases failure.outer.len(),
{
    if failure.outer.len() == 0 {
        assert(raise::<VerboseError<'a>>(input, failure) =~= trail(input, failure));
    } else {
        let below = Failure { at: failure.at, kind: failure.kind, outer: failure.outer.drop_last() };
        lemma_verbose_error_reports_trail(input, below);
        assert(raise::<VerboseError<'a>>(input, failure) =~= trail(input, failure));
    }
}

} // verus!
