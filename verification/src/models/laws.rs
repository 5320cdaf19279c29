use vstd::prelude::*;
use crate::text::lemmas::{
    is_plain, lemma_decimal_round_trip, lemma_lines_push, lemma_trim_plain, lemma_upper_plain,
    lemma_words_one, lemma_words_two,
};
use crate::text::{is_blank, is_digit, is_space, lines, parse_i32, words};
use super::{
    failures, leading_successes, line_results, nullary, parse_named, Assembly, LineFault, Op,
    OpFault, Register, Statement, Value,
};

verus! {

/// The name of every operation is plain and not empty, and the names of the
/// operations without arguments tell them apart.
pub proof fn lemma_mnemonics(op: Op)
    ensures
        is_plain(op.mnemonic()),
        op.mnemonic().len() > 0,
        !(op is PushValue || op is PushRegister || op is PopRegister) ==> nullary(op.mnemonic())
            == Some(op),
        op is PushValue || op is PushRegister ==> op.mnemonic() == "PUSH"@,
        op is PopRegister ==> op.mnemonic() == "POP"@ && op.mnemonic() != "PUSH"@,
{
    reveal_strlit("ADD");
    reveal_strlit("SUB");
    reveal_strlit("MUL");
    reveal_strlit("DIV");
    reveal_strlit("MOD");
    reveal_strlit("INPUT");
    reveal_strlit("OUTPUT");
    reveal_strlit("HALT");
    reveal_strlit("PUSH");
    reveal_strlit("POP");
    let m = op.mnemonic();
    assert(is_plain(m));
    assert("SUB"@[0] != "ADD"@[0]);
    assert("MUL"@[0] != "ADD"@[0]);
    assert("MUL"@[0] != "SUB"@[0]);
    assert("DIV"@[0] != "ADD"@[0]);
    assert("DIV"@[0] != "SUB"@[0]);
    assert("DIV"@[0] != "MUL"@[0]);
    assert("MOD"@[0] != "ADD"@[0]);
    assert("MOD"@[0] != "SUB"@[0]);
    assert("MOD"@[1] != "MUL"@[1]);
    assert("MOD"@[0] != "DIV"@[0]);
    assert("INPUT"@[0] != "ADD"@[0]);
    assert("INPUT"@[0] != "SUB"@[0]);
    assert("INPUT"@[0] != "MUL"@[0]);
    assert("INPUT"@[0] != "DIV"@[0]);
    assert("INPUT"@[0] != "MOD"@[0]);
    assert("OUTPUT"@[0] != "ADD"@[0]);
    assert("OUTPUT"@[0] != "SUB"@[0]);
    assert("OUTPUT"@[0] != "MUL"@[0]);
    assert("OUTPUT"@[0] != "DIV"@[0]);
    assert("OUTPUT"@[0] != "MOD"@[0]);
    assert("OUTPUT"@[0] != "INPUT"@[0]);
    assert("HALT"@[0] != "ADD"@[0]);
    assert("HALT"@[0] != "SUB"@[0]);
    assert("HALT"@[0] != "MUL"@[0]);
    assert("HALT"@[0] != "DIV"@[0]);
    assert("HALT"@[0] != "MOD"@[0]);
    assert("HALT"@[0] != "INPUT"@[0]);
    assert("HALT"@[0] != "OUTPUT"@[0]);
    assert("POP"@[1] != "PUSH"@[1]);
}

/// The name of every register is one capital letter, which reads as that
/// register and as no integer.
pub proof fn lemma_register_names(r: Register)
    ensures
        is_plain(r.text()),
        r.text().len() == 1,
        Register::named(r.text()) == Some(r),
        Register::parsing(r.text()) == Ok::<Register, super::ArgumentFault>(r),
        parse_i32(r.text()) is None,
{
    reveal_strlit("A");
    reveal_strlit("B");
    reveal_strlit("C");
    reveal_strlit("D");
    let t = r.text();
    assert(is_plain(t));
    assert("B"@[0] != "A"@[0]);
    assert("C"@[0] != "A"@[0] && "C"@[0] != "B"@[0]);
    assert("D"@[0] != "A"@[0] && "D"@[0] != "B"@[0] && "D"@[0] != "C"@[0]);
    lemma_trim_plain(t);
    lemma_upper_plain(t);
    assert(!is_digit(t[0]));
}

/// Reading the text of an operation gives the operation back. The text is
/// not blank and holds no line feed.
pub proof fn lemma_op_text_round_trip(op: Op)
    ensures
        Op::parsing(op.text()) == Ok::<Op, OpFault>(op),
        !is_blank(op.text()),
        forall|k: int| 0 <= k < op.text().len() ==> #[trigger] op.text()[k] != '\n',
{
    reveal_strlit(" ");
    let m = op.mnemonic();
    let t = op.text();
    lemma_mnemonics(op);
    assert(" "@ =~= seq![' ']);
    assert(!is_space(m[0]));
    assert(t[0] == m[0]);
    lemma_upper_plain(m);
    match op {
        Op::PushValue(v) => {
            let a = v.text();
            lemma_decimal_round_trip(v.0);
            lemma_words_two(m, a);
            lemma_text_of_words(t, m, a);
            assert(words(t).skip(1) =~= seq![a]);
            assert(Value::parsing(a) == Ok::<Value, super::ArgumentFault>(v));
        },
        Op::PushRegister(r) => {
            let a = r.text();
            lemma_register_names(r);
            lemma_words_two(m, a);
            lemma_text_of_words(t, m, a);
            assert(words(t).skip(1) =~= seq![a]);
        },
        Op::PopRegister(r) => {
            let a = r.text();
            lemma_register_names(r);
            lemma_words_two(m, a);
            lemma_text_of_words(t, m, a);
            assert(words(t).skip(1) =~= seq![a]);
        },
        _ => {
            lemma_words_one(m);
            assert(words(t).skip(1) =~= Seq::<Seq<char>>::empty());
            assert(parse_named(m, Seq::<Seq<char>>::empty()) == Ok::<Op, OpFault>(op));
        },
    }
}

/// Two words without line feeds, with a space between them, make a text
/// without line feeds.
proof fn lemma_text_of_words(t: Seq<char>, m: Seq<char>, a: Seq<char>)
    requires
        t == m + seq![' '] + a,
        is_plain(m),
        is_plain(a),
    ensures
        forall|k: int| 0 <= k < t.len() ==> #[trigger] t[k] != '\n',
{
    assert forall|k: int| 0 <= k < t.len() implies #[trigger] t[k] != '\n' by {
        if k < m.len() {
            assert(t[k] == m[k]);
        } else if k == m.len() {
            assert(t[k] == ' ');
        } else {
            assert(t[k] == a[k - m.len() - 1]);
        }
    }
}

/// The texts of the statements, in order.
pub open spec fn statement_texts(statements: Seq<Statement>) -> Seq<Seq<char>> {
    statements.map_values(|s: Statement| s.text())
}

/// The lines of the text of a program are the texts of its statements, and
/// the text is empty or ends with a line feed.
pub proof fn lemma_program_lines(statements: Seq<Statement>)
    ensures
        lines(Assembly::text_of(statements)) == statement_texts(statements),
        Assembly::text_of(statements).len() == 0 || Assembly::text_of(statements).last() == '\n',
    decreases statements.len(),
{
    reveal_strlit("\n");
    assert("\n"@ =~= seq!['\n']);
    if statements.len() == 0 {
        assert(lines(Assembly::text_of(statements)) =~= statement_texts(statements));
    } else {
        let head = statements.drop_last();
        let last = statements.last();
        lemma_program_lines(head);
        lemma_op_text_round_trip(last.spec_op());
        lemma_lines_push(Assembly::text_of(head), last.text());
        assert(statement_texts(head).push(last.text()) =~= statement_texts(statements));
        assert(Assembly::text_of(statements) =~= Assembly::text_of(head) + last.text() + seq![
            '\n',
        ]);
    }
}

/// Read line by line, the texts of statements give the statements back, all
/// of them and no error.
pub proof fn lemma_statement_texts_results(statements: Seq<Statement>)
    ensures
        leading_successes(line_results(statement_texts(statements))) == statements,
        failures(line_results(statement_texts(statements))) == Seq::<LineFault>::empty(),
    decreases statements.len(),
{
    let texts = statement_texts(statements);
    if statements.len() == 0 {
        assert(leading_successes(line_results(texts)) =~= statements);
    } else {
        let head = statements.drop_last();
        let last = statements.last();
        lemma_statement_texts_results(head);
        lemma_op_text_round_trip(last.spec_op());
        assert(texts.drop_last() =~= statement_texts(head));
        assert(texts.last() == last.text());
        assert(Statement::parsing(last.text()) == Ok::<Statement, super::StatementFault>(last));
        let results = line_results(texts);
        assert(results == line_results(statement_texts(head)).push(
            Ok::<Statement, LineFault>(last),
        ));
        assert(results.drop_last() =~= line_results(statement_texts(head)));
        assert(results.last() == Ok::<Statement, LineFault>(last));
        assert(leading_successes(results) =~= statements);
    }
}

/// Writing a program as text and reading the text gives a program with the
/// same statements in the same order, whatever the program.
pub proof fn lemma_program_text_round_trip(statements: Seq<Statement>)
    ensures
        Assembly::parsing(Assembly::text_of(statements)) == Ok::<Seq<Statement>, Seq<LineFault>>(
            statements,
        ),
{
    lemma_program_lines(statements);
    lemma_statement_texts_results(statements);
}

} // verus!
