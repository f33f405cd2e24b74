//! Accumulating validation results.
//!
//! Instead of stopping at the first failed check, a [`Validation`] collects
//! every problem found and reports them together, while keeping fatal
//! infrastructure errors (which abort checking) strictly apart from
//! validation problems (which accumulate).

use vstd::prelude::*;

verus! {

/// One way the validated input failed a check.
///
/// The surrounding checking logic decides what a problem means; this
/// library only carries problems around and concatenates them.
#[derive(Debug, Clone, PartialEq, Eq)]
pub struct Problem {
    pub message: String,
}

impl From<String> for Problem {
    /// Wrap a failure-describing value as a check problem.
    fn from(message: String) -> (r: Problem) {
        Problem { message }
    }
}

impl vstd::std_specs::convert::FromSpecImpl<String> for Problem {
    open spec fn obeys_from_spec() -> bool {
        true
    }

    open spec fn from_spec(message: String) -> Problem {
        Problem { message }
    }
}

/// The validation result of a check.  Instead of exiting at the first
/// failure, this type can accumulate multiple failures, using the
/// combinators `and`, `and_`, `sequence` and `sequence_`.
#[derive(Debug, PartialEq, Eq)]
pub enum Validation<A> {
    Failure(Vec<Problem>),
    Success(A),
}

/// The problems reported by one validation: its problem list for a
/// failure, nothing for a success.
pub open spec fn problems_of<A>(v: Validation<A>) -> Seq<Problem> {
    match v {
        Validation::Failure(es) => es@,
        Validation::Success(_) => Seq::empty(),
    }
}

/// Every validation in the sequence is a success.
pub open spec fn all_success<A>(vs: Seq<Validation<A>>) -> bool {
    forall|i: int| 0 <= i < vs.len() ==> vs[i] is Success
}

/// The problems of every validation in the sequence, concatenated in
/// order: each failing element contributes its problems, left to right,
/// and successful elements contribute nothing.
pub open spec fn all_problems<A>(vs: Seq<Validation<A>>) -> Seq<Problem>
    decreases vs.len(),
{
    if vs.len() == 0 {
        Seq::empty()
    } else {
        all_problems(vs.drop_last()) + problems_of(vs.last())
    }
}

/// The values of the successful validations in the sequence, in order.
pub open spec fn success_values<A>(vs: Seq<Validation<A>>) -> Seq<A>
    decreases vs.len(),
{
    if vs.len() == 0 {
        Seq::empty()
    } else {
        success_values(vs.drop_last()) + (match vs.last() {
            Validation::Success(a) => seq![a],
            Validation::Failure(_) => Seq::empty(),
        })
    }
}

impl<A> Validation<A> {
    /// A failure reports at least one problem.  Every constructor and
    /// combinator of this library establishes or preserves this.
    pub open spec fn wf(self) -> bool {
        self matches Validation::Failure(es) ==> es@.len() > 0
    }

    /// Create a `Validation<A>` from a single check problem.
    pub fn from_problem(p: Problem) -> (r: Validation<A>)
        ensures
            r matches Validation::Failure(es) && es@ == seq![p],
            r.wf(),
    {
        let mut es: Vec<Problem> = Vec::new();
        es.push(p);
        proof {
            assert(es@ =~= seq![p]);
        }
        Validation::Failure(es)
    }

    /// Map a `Validation<A>` to a `Validation<B>` by applying a function
    /// to the potentially contained value in case of success.  A failure
    /// passes through unchanged and the function is not invoked.
    pub fn map<B, F: FnOnce(A) -> B>(self, f: F) -> (r: Validation<B>)
        requires
            self matches Validation::Success(a) ==> call_requires(f, (a,)),
        ensures
            self matches Validation::Failure(es) ==> r == Validation::<B>::Failure(es),
            self matches Validation::Success(a) ==> r matches Validation::Success(b)
                && call_ensures(f, (a,), b),
            self.wf() ==> r.wf(),
    {
        match self {
            Validation::Failure(err) => Validation::Failure(err),
            Validation::Success(value) => Validation::Success(f(value)),
        }
    }

    /// Map a `Validation<A>` to a `CheckResult<B>` by applying a function
    /// `A -> CheckResult<B>` only if there is a `Success` value.  A
    /// failure short-circuits: it is wrapped as a completed check and the
    /// function is not invoked; a success hands its value to the function
    /// and returns the function's result verbatim, fatal errors included.
    pub fn result_map<B, F: FnOnce(A) -> CheckResult<B>>(self, f: F) -> (r: CheckResult<B>)
        requires
            self matches Validation::Success(a) ==> call_requires(f, (a,)),
        ensures
            self matches Validation::Failure(es) ==> r matches Ok(v)
                && v == Validation::<B>::Failure(es),
            self matches Validation::Success(a) ==> call_ensures(f, (a,), r),
    {
        match self {
            Validation::Failure(err) => Ok(Validation::Failure(err)),
            Validation::Success(value) => f(value),
        }
    }

    /// Combine two validations, both of which need to be successful for
    /// the return value to be successful.  The problems of both sides are
    /// returned concatenated, the left side's first.
    pub fn and<B, C, F: FnOnce(A, B) -> C>(self, other: Validation<B>, f: F) -> (r: Validation<C>)
        requires
            self matches Validation::Success(a) ==> (other matches Validation::Success(b)
                ==> call_requires(f, (a, b))),
        ensures
            self matches Validation::Success(a) ==> (other matches Validation::Success(b)
                ==> r matches Validation::Success(c) && call_ensures(f, (a, b), c)),
            (self is Failure || other is Failure) ==> (r matches Validation::Failure(es)
                && es@ == problems_of(self) + problems_of(other)),
            self.wf() && other.wf() ==> r.wf(),
    {
        match (self, other) {
            (Validation::Success(a), Validation::Success(b)) => Validation::Success(f(a, b)),
            (Validation::Failure(errors_l), Validation::Failure(errors_r)) => Validation::Failure(
                concat_problems(errors_l, errors_r),
            ),
            (Validation::Failure(errors), Validation::Success(_)) => Validation::Failure(errors),
            (Validation::Success(_), Validation::Failure(errors)) => Validation::Failure(errors),
        }
    }
}

impl Validation<()> {
    /// Combine two validations, both of which need to be successful for
    /// the return value to be successful, keeping the right side's value.
    /// The problems of both sides are returned concatenated, the left
    /// side's first.
    pub fn and_<B>(self, other: Validation<B>) -> (r: Validation<B>)
        ensures
            self is Success ==> (other matches Validation::Success(b)
                ==> r == Validation::<B>::Success(b)),
            (self is Failure || other is Failure) ==> (r matches Validation::Failure(es)
                && es@ == problems_of(self) + problems_of(other)),
            self.wf() && other.wf() ==> r.wf(),
    {
        self.and(
            other,
            (|_unit: (), b: B| -> (res: B)
                ensures
                    res == b,
                {
                    b
                }),
        )
    }
}

/// Law: a sequence of well-formed validations reports no problems exactly
/// when every one of them is a success.
pub proof fn lemma_no_problems_iff_all_success<A>(vs: Seq<Validation<A>>)
    requires
        forall|i: int| 0 <= i < vs.len() ==> (#[trigger] vs[i]).wf(),
    ensures
        all_problems(vs).len() == 0 <==> all_success(vs),
    decreases vs.len(),
{
    if vs.len() == 0 {
    } else {
        let prefix = vs.drop_last();
        assert forall|i: int| 0 <= i < prefix.len() implies (#[trigger] prefix[i]).wf() by {
            assert(prefix[i] == vs[i]);
        }
        lemma_no_problems_iff_all_success(prefix);
        if all_problems(vs).len() == 0 {
            match vs.last() {
                Validation::Failure(es) => {
                    assert(vs[vs.len() - 1].wf());
                    assert(false);
                },
                Validation::Success(_) => {},
            }
            assert forall|i: int| 0 <= i < vs.len() implies vs[i] is Success by {
                if i < vs.len() - 1 {
                    assert(vs[i] == prefix[i]);
                    assert(prefix[i] is Success);
                }
            }
        }
        if all_success(vs) {
            assert forall|i: int| 0 <= i < prefix.len() implies prefix[i] is Success by {
                assert(prefix[i] == vs[i]);
                assert(vs[i] is Success);
            }
            assert(vs.last() is Success);
            assert(all_problems(vs).len() == 0);
        }
    }
}

/// Combine many validations into a single one.
///
/// All given validations need to be successful in order for the returned
/// validation to be successful, in which case the returned validation
/// holds a `Vec` of each individual value, in order.  Otherwise the
/// problems of all failing validations are returned concatenated, in
/// order.
pub fn sequence<A>(check_results: Vec<Validation<A>>) -> (r: Validation<Vec<A>>)
    requires
        forall|i: int| 0 <= i < check_results@.len() ==> (#[trigger] check_results@[i]).wf(),
    ensures
        all_success(check_results@) ==> (r matches Validation::Success(values)
            && values@ == success_values(check_results@)),
        !all_success(check_results@) ==> (r matches Validation::Failure(es)
            && es@ == all_problems(check_results@)),
        r.wf(),
{
    let ghost orig = check_results@;
    let mut vs = check_results;
    let mut problems: Vec<Problem> = Vec::new();
    let mut values: Vec<A> = Vec::new();
    proof {
        assert(vs@ =~= orig.subrange(orig.len() - vs@.len(), orig.len() as int));
    }
    while vs.len() > 0
        invariant
            vs@.len() <= orig.len(),
            vs@ == orig.subrange(orig.len() - vs@.len(), orig.len() as int),
            problems@ == all_problems(orig.take(orig.len() - vs@.len())),
            values@ == success_values(orig.take(orig.len() - vs@.len())),
            forall|i: int| 0 <= i < orig.len() ==> (#[trigger] orig[i]).wf(),
        decreases vs@.len(),
    {
        let ghost k: int = orig.len() - vs@.len();
        let v = vs.remove(0);
        proof {
            assert(v == orig[k]);
            assert(vs@ =~= orig.subrange(k + 1, orig.len() as int));
            assert(orig.take(k + 1).drop_last() =~= orig.take(k));
            assert(orig.take(k + 1).last() == orig[k]);
        }
        match v {
            Validation::Failure(mut es) => {
                proof {
                    assert(problems_of(orig[k]) == es@);
                }
                problems.append(&mut es);
                proof {
                    assert(success_values(orig.take(k + 1)) =~= values@);
                }
            },
            Validation::Success(a) => {
                values.push(a);
                proof {
                    assert(values@ =~= success_values(orig.take(k)) + seq![a]);
                    assert(all_problems(orig.take(k + 1)) =~= problems@);
                }
            },
        }
    }
    proof {
        assert(orig.take(orig.len() as int) =~= orig);
        lemma_no_problems_iff_all_success(orig);
    }
    if problems.len() == 0 {
        Validation::Success(values)
    } else {
        Validation::Failure(problems)
    }
}

/// Like `sequence`, but without any contained value, for convenience.
pub fn sequence_(validations: Vec<Validation<()>>) -> (r: Validation<()>)
    requires
        forall|i: int| 0 <= i < validations@.len() ==> (#[trigger] validations@[i]).wf(),
    ensures
        all_success(validations@) ==> r == Validation::<()>::Success(()),
        !all_success(validations@) ==> (r matches Validation::Failure(es)
            && es@ == all_problems(validations@)),
        r.wf(),
{
    sequence(validations).map(
        (|_values: Vec<()>| -> (res: ())
            ensures
                res == (),
            {
                ()
            }),
    )
}

/// Every result in the sequence is `Ok`.
pub open spec fn all_ok<A, E>(rs: Seq<Result<A, E>>) -> bool {
    forall|i: int| 0 <= i < rs.len() ==> rs[i] is Ok
}

/// The values of the `Ok` results in the sequence, in order.
pub open spec fn ok_values<A, E>(rs: Seq<Result<A, E>>) -> Seq<A>
    decreases rs.len(),
{
    if rs.len() == 0 {
        Seq::empty()
    } else {
        ok_values(rs.drop_last()) + (match rs.last() {
            Ok(a) => seq![a],
            Err(_) => Seq::empty(),
        })
    }
}

/// Collect individually fallible results into either the first fatal
/// error encountered or a `Vec` of every value.
///
/// Unlike the `Validation` combinators this does not accumulate: a single
/// fatal failure anywhere aborts collection of the rest, because fatal
/// errors mean the checking process itself is broken.
pub fn collect_vec<A, E>(results: Vec<Result<A, E>>) -> (r: Result<Vec<A>, E>)
    ensures
        all_ok(results@) ==> (r matches Ok(values) && values@ == ok_values(results@)),
        !all_ok(results@) ==> (r matches Err(e) && exists|i: int|
            0 <= i < results@.len() && (#[trigger] results@[i]) == Err::<A, E>(e)
            && (forall|j: int| 0 <= j < i ==> (#[trigger] results@[j]) is Ok)),
{
    let ghost orig = results@;
    let mut rs = results;
    let mut values: Vec<A> = Vec::new();
    proof {
        assert(rs@ =~= orig.subrange(orig.len() - rs@.len(), orig.len() as int));
    }
    #[verifier::loop_isolation(false)]
    while rs.len() > 0
        invariant
            rs@.len() <= orig.len(),
            rs@ == orig.subrange(orig.len() - rs@.len(), orig.len() as int),
            values@ == ok_values(orig.take(orig.len() - rs@.len())),
            forall|j: int| 0 <= j < orig.len() - rs@.len() ==> (#[trigger] orig[j]) is Ok,
        decreases rs@.len(),
    {
        let ghost k: int = orig.len() - rs@.len();
        let x = rs.remove(0);
        proof {
            assert(x == orig[k]);
            assert(rs@ =~= orig.subrange(k + 1, orig.len() as int));
            assert(orig.take(k + 1).drop_last() =~= orig.take(k));
            assert(orig.take(k + 1).last() == orig[k]);
        }
        match x {
            Ok(a) => {
                values.push(a);
                proof {
                    assert(values@ =~= ok_values(orig.take(k)) + seq![a]);
                }
            },
            Err(e) => {
                proof {
                    assert(0 <= k < orig.len() && (#[trigger] orig[k]) == Err::<A, E>(e)
                        && (forall|j: int| 0 <= j < k ==> (#[trigger] orig[j]) is Ok));
                    assert(!all_ok(orig));
                }
                return Err(e);
            },
        }
    }
    proof {
        assert(orig.take(orig.len() as int) =~= orig);
        assert(all_ok(orig));
    }
    Ok(values)
}

/// Relies on `itertools::concat`: concatenates the given vectors into
/// one, in order.
#[verifier::external_body]
fn concat_problems(left: Vec<Problem>, right: Vec<Problem>) -> (r: Vec<Problem>)
    ensures
        r@ == left@ + right@,
{
    itertools::concat([left, right])
}

/// Relies on the type `anyhow::Error`, the fatal-error type of
/// `CheckResult`.  The library never inspects such a value, it only
/// passes it through.
#[verifier::external_type_specification]
#[verifier::external_body]
pub struct ExAnyhowError(anyhow::Error);

/// The result of a check, either:
///
/// - `Err(anyhow::Error)`: a fatal failure, unrelated to the validity of
///   the checked input.  Such an error aborts all further checking.
///
/// - `Ok(Failure(..))`: the check completed and found problems with the
///   input.  Further checks can still be run.
///
/// - `Ok(Success(a))`: the check completed with a (potentially
///   intermediate) successful value.
pub type CheckResult<A> = Result<Validation<A>, anyhow::Error>;

} // verus!
