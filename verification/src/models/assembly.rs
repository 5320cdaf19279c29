use vstd::prelude::*;
use crate::text::{blank, chars_of, is_blank, lines, split_lines, texts};
use super::{line_faults, AssemblyParseError, LineFault, LineWithError, Statement};

verus! {

/// A program: statements in the order in which they are executed.
#[derive(Debug)]
pub struct Assembly(Vec<Statement>);

impl View for Assembly {
    type V = Seq<Statement>;

    closed spec fn view(&self) -> Seq<Statement> {
        self.0@
    }
}

/// The errors of the results that failed, in order.
pub open spec fn failures<T, U>(results: Seq<Result<T, U>>) -> Seq<U>
    decreases results.len(),
{
    if results.len() == 0 {
        Seq::empty()
    } else {
        match results.last() {
            Ok(_) => failures(results.drop_last()),
            Err(e) => failures(results.drop_last()).push(e),
        }
    }
}

/// The values of the results that come before the first failure, in order:
/// all the values, where no result failed.
pub open spec fn leading_successes<T, U>(results: Seq<Result<T, U>>) -> Seq<T>
    decreases results.len(),
{
    if results.len() == 0 {
        Seq::empty()
    } else {
        match results.last() {
            Ok(x) => if failures(results.drop_last()).len() == 0 {
                leading_successes(results.drop_last()).push(x)
            } else {
                leading_successes(results.drop_last())
            },
            Err(_) => leading_successes(results.drop_last()),
        }
    }
}

/// Parts results into the values of those that succeeded before the first
/// failure and the errors of all that failed, each in the order in which it
/// came.
pub fn partition_results<T, U>(results: Vec<Result<T, U>>) -> (r: (Vec<T>, Vec<U>))
    ensures
        r.0@ == leading_successes(results@),
        r.1@ == failures(results@),
{
    let mut oks: Vec<T> = Vec::new();
    let mut errors: Vec<U> = Vec::new();
    let ghost all = results@;
    for result in it: results.into_iter()
        invariant
            it.seq() == all,
            oks@ == leading_successes(all.take(it.index() as int)),
            errors@ == failures(all.take(it.index() as int)),
    {
        proof {
            let next = all.take(it.index() + 1);
            assert(next.drop_last() =~= all.take(it.index() as int));
            assert(next.last() == result);
        }
        match result {
            Ok(x) => {
                if errors.len() == 0 {
                    oks.push(x)
                }
            },
            Err(x) => errors.push(x),
        }
    }
    assert(all.take(all.len() as int) =~= all);
    (oks, errors)
}

/// What each line that is not blank gives when it is read as a statement. An
/// error carries the number of its line in `lines`, counted from 1 with the
/// blank lines.
pub open spec fn line_results(lines: Seq<Seq<char>>) -> Seq<Result<Statement, LineFault>>
    decreases lines.len(),
{
    if lines.len() == 0 {
        Seq::empty()
    } else if is_blank(lines.last()) {
        line_results(lines.drop_last())
    } else {
        line_results(lines.drop_last()).push(
            match Statement::parsing(lines.last()) {
                Ok(s) => Ok(s),
                Err(e) => Err(LineFault { line: lines.len(), error: e }),
            },
        )
    }
}

/// The results as plain values.
pub open spec fn result_views(results: Seq<Result<Statement, LineWithError>>) -> Seq<
    Result<Statement, LineFault>,
> {
    results.map_values(
        |r: Result<Statement, LineWithError>|
            match r {
                Ok(s) => Ok(s),
                Err(e) => Err(e@),
            },
    )
}

/// Parting results and taking them as plain values can be done in either
/// order.
pub proof fn lemma_partition_views(results: Seq<Result<Statement, LineWithError>>)
    ensures
        leading_successes(result_views(results)) == leading_successes(results),
        failures(result_views(results)) == line_faults(failures(results)),
    decreases results.len(),
{
    if results.len() == 0 {
        assert(failures(result_views(results)) =~= line_faults(failures(results)));
    } else {
        lemma_partition_views(results.drop_last());
        assert(result_views(results).drop_last() =~= result_views(results.drop_last()));
        assert(failures(result_views(results)) =~= line_faults(failures(results)));
    }
}

impl Assembly {
    /// The statements of the program, in order.
    pub fn statements(&self) -> (r: &Vec<Statement>)
        ensures
            r@ == self@,
    {
        &self.0
    }

    /// The program made of the given statements, in the given order.
    pub fn new(statements: Vec<Statement>) -> (r: Assembly)
        ensures
            r@ == statements@,
    {
        Assembly(statements)
    }

    /// What reading `text` as a program gives. The text is taken line by
    /// line, and lines of white space only are passed over. Where every
    /// other line is a statement, the program is these statements in order.
    /// Where not, every line is still tried, and all the errors come back
    /// together, in the order of their lines.
    pub open spec fn parsing(text: Seq<char>) -> Result<Seq<Statement>, Seq<LineFault>> {
        let results = line_results(lines(text));
        if failures(results).len() == 0 {
            Ok(leading_successes(results))
        } else {
            Err(failures(results))
        }
    }

    /// The text of a sequence of statements: one line for each, ended by a
    /// line feed.
    pub open spec fn text_of(statements: Seq<Statement>) -> Seq<char>
        decreases statements.len(),
    {
        if statements.len() == 0 {
            Seq::empty()
        } else {
            Assembly::text_of(statements.drop_last()) + statements.last().text() + "\n"@
        }
    }

    /// Reads `s` as a program.
    pub fn from_str(s: &str) -> (r: Result<Assembly, AssemblyParseError>)
        ensures
            match r {
                Ok(assembly) => Assembly::parsing(s@) == Ok::<Seq<Statement>, Seq<LineFault>>(
                    assembly@,
                ),
                Err(e) => Assembly::parsing(s@) == Err::<Seq<Statement>, Seq<LineFault>>(e@),
            },
    {
        let text = chars_of(s);
        let all = split_lines(text.as_slice());
        let mut results: Vec<Result<Statement, LineWithError>> = Vec::new();
        let mut i: usize = 0;
        assert(texts(all@).take(0) =~= Seq::<Seq<char>>::empty());
        assert(result_views(results@) =~= line_results(texts(all@).take(0)));
        while i < all.len()
            invariant
                i <= all.len(),
                texts(all@) == lines(s@),
                result_views(results@) == line_results(texts(all@).take(i as int)),
            decreases all.len() - i,
        {
            let line = all[i].as_slice();
            proof {
                let next = texts(all@).take(i + 1);
                assert(next.drop_last() =~= texts(all@).take(i as int));
                assert(next.last() == line@);
            }
            if !blank(line) {
                let result = match Statement::from_chars(line) {
                    Ok(statement) => Ok(statement),
                    Err(error) => Err(LineWithError { line: i + 1, error }),
                };
                assert(result_views(results@.push(result)) =~= result_views(results@).push(
                    match result {
                        Ok(s) => Ok(s),
                        Err(e) => Err(e@),
                    },
                ));
                results.push(result);
            }
            i += 1;
        }
        assert(texts(all@).take(i as int) =~= texts(all@));
        proof {
            lemma_partition_views(results@);
        }
        let (statements, errors) = partition_results(results);
        if errors.len() == 0 {
            Ok(Assembly(statements))
        } else {
            Err(AssemblyParseError { errors })
        }
    }

    /// The program as text.
    pub fn to_string(&self) -> (r: String)
        ensures
            r@ == Assembly::text_of(self@),
    {
        let mut r = String::new();
        let mut i: usize = 0;
        assert(self@.take(0) =~= Seq::<Statement>::empty());
        while i < self.0.len()
            invariant
                i <= self.0.len(),
                r@ == Assembly::text_of(self@.take(i as int)),
            decreases self.0.len() - i,
        {
            proof {
                let next = self@.take(i + 1);
                assert(next.drop_last() =~= self@.take(i as int));
                assert(next.last() == self.0@[i as int]);
            }
            r.append(self.0[i].to_string().as_str());
            r.append("\n");
            i += 1;
        }
        assert(self@.take(i as int) =~= self@);
        r
    }
}

impl core::str::FromStr for Assembly {
    type Err = AssemblyParseError;

    fn from_str(s: &str) -> (r: Result<Assembly, AssemblyParseError>)
        ensures
            match r {
                Ok(assembly) => Assembly::parsing(s@) == Ok::<Seq<Statement>, Seq<LineFault>>(
                    assembly@,
                ),
                Err(e) => Assembly::parsing(s@) == Err::<Seq<Statement>, Seq<LineFault>>(e@),
            },
    {
        Assembly::from_str(s)
    }
}

} // verus!
