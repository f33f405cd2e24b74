use validation::{collect_vec, sequence, sequence_, CheckResult, Problem, Validation};

fn problem(text: &str) -> Problem {
    Problem::from(String::from(text))
}

#[test]
fn from_problem_yields_one_failure_regardless_of_type() {
    let v: Validation<u32> = Validation::from_problem(problem("bad"));
    assert_eq!(v, Validation::Failure(vec![problem("bad")]));
    let w: Validation<String> = Validation::from_problem(problem("bad"));
    assert_eq!(w, Validation::Failure(vec![problem("bad")]));
}

#[test]
fn map_over_success_applies_function() {
    let v: Validation<u32> = Validation::Success(20);
    assert_eq!(v.map(|x| x + 1), Validation::Success(21));
}

#[test]
fn map_over_failure_passes_through_without_invoking() {
    let mut count = 0;
    let v: Validation<u32> = Validation::from_problem(problem("bad"));
    let r: Validation<u32> = v.map(|x| {
        count += 1;
        x + 1
    });
    assert_eq!(count, 0);
    assert_eq!(r, Validation::Failure(vec![problem("bad")]));
}

#[test]
fn result_map_over_failure_short_circuits_without_invoking() {
    let mut count = 0;
    let v: Validation<u32> = Validation::from_problem(problem("bad"));
    let r: CheckResult<u32> = v.result_map(|x| {
        count += 1;
        Ok(Validation::Success(x + 1))
    });
    assert_eq!(count, 0);
    match r {
        Ok(inner) => assert_eq!(inner, Validation::Failure(vec![problem("bad")])),
        Err(_) => panic!("a validation failure must not become a fatal error"),
    }
}

#[test]
fn result_map_over_success_invokes_once_and_returns_verbatim() {
    let mut count = 0;
    let v: Validation<u32> = Validation::Success(20);
    let r: CheckResult<u32> = v.result_map(|x| {
        count += 1;
        Ok(Validation::Success(x + 1))
    });
    assert_eq!(count, 1);
    match r {
        Ok(inner) => assert_eq!(inner, Validation::Success(21)),
        Err(_) => panic!("the function returned no fatal error"),
    }
}

#[test]
fn result_map_propagates_fatal_error_unchanged() {
    let v: Validation<u32> = Validation::Success(20);
    let r: CheckResult<u32> = v.result_map(|_x| Err(anyhow::Error::msg("resource unavailable")));
    match r {
        Ok(_) => panic!("the fatal error was swallowed"),
        Err(e) => assert_eq!(e.to_string(), "resource unavailable"),
    }
}

#[test]
fn and_of_two_successes_keeps_right_value() {
    let l: Validation<()> = Validation::Success(());
    let r: Validation<u32> = Validation::Success(2);
    assert_eq!(l.and_(r), Validation::Success(2));
}

#[test]
fn and_of_two_failures_concatenates_left_then_right() {
    let l: Validation<()> = Validation::from_problem(problem("first"));
    let r: Validation<u32> = Validation::from_problem(problem("second"));
    assert_eq!(
        l.and_(r),
        Validation::Failure(vec![problem("first"), problem("second")])
    );
}

#[test]
fn and_of_failure_and_success_keeps_failure() {
    let l: Validation<()> = Validation::from_problem(problem("only"));
    let r: Validation<u32> = Validation::Success(2);
    assert_eq!(l.and_(r), Validation::Failure(vec![problem("only")]));
}

#[test]
fn and_of_success_and_failure_keeps_failure() {
    let l: Validation<()> = Validation::Success(());
    let r: Validation<u32> = Validation::from_problem(problem("only"));
    assert_eq!(l.and_(r), Validation::Failure(vec![problem("only")]));
}

#[test]
fn and_combines_both_values() {
    let l: Validation<u32> = Validation::Success(1);
    let r: Validation<u32> = Validation::Success(2);
    assert_eq!(l.and(r, |a, b| a + b), Validation::Success(3));
}

#[test]
fn sequence_of_successes_keeps_values_in_order() {
    let vs: Vec<Validation<u32>> = vec![
        Validation::Success(1),
        Validation::Success(2),
        Validation::Success(3),
    ];
    assert_eq!(sequence(vs), Validation::Success(vec![1, 2, 3]));
}

#[test]
fn sequence_of_empty_collection_is_empty_success() {
    let vs: Vec<Validation<u32>> = Vec::new();
    assert_eq!(sequence(vs), Validation::Success(Vec::new()));
}

#[test]
fn sequence_concatenates_problems_of_failing_elements_in_order() {
    let a: Validation<u32> = Validation::Success(1);
    let b: Validation<u32> = Validation::from_problem(problem("bad-name"));
    let c: Validation<u32> = Validation::from_problem(problem("bad-ext"));
    assert_eq!(
        sequence(vec![a, b, c]),
        Validation::Failure(vec![problem("bad-name"), problem("bad-ext")])
    );
}

#[test]
fn sequence_keeps_multiple_problems_of_one_element() {
    let l: Validation<()> = Validation::from_problem(problem("first"));
    let r: Validation<()> = Validation::from_problem(problem("second"));
    let both: Validation<()> = l.and_(r);
    let single: Validation<()> = Validation::from_problem(problem("third"));
    assert_eq!(
        sequence(vec![both, single]),
        Validation::Failure(vec![problem("first"), problem("second"), problem("third")])
    );
}

#[test]
fn sequence_discarding_agrees_with_sequence_then_map() {
    let make = || -> Vec<Validation<()>> {
        vec![
            Validation::Success(()),
            Validation::from_problem(problem("bad-name")),
            Validation::from_problem(problem("bad-ext")),
        ]
    };
    assert_eq!(sequence_(make()), sequence(make()).map(|_| ()));
    let all_good = || -> Vec<Validation<()>> {
        vec![Validation::Success(()), Validation::Success(())]
    };
    assert_eq!(sequence_(all_good()), sequence(all_good()).map(|_| ()));
    assert_eq!(sequence_(all_good()), Validation::Success(()));
}

#[test]
fn collect_vec_of_all_ok_keeps_values_in_order() {
    let rs: Vec<Result<u32, String>> = vec![Ok(1), Ok(2), Ok(3)];
    assert_eq!(collect_vec(rs), Ok(vec![1, 2, 3]));
}

#[test]
fn collect_vec_of_empty_collection_is_empty_ok() {
    let rs: Vec<Result<u32, String>> = Vec::new();
    assert_eq!(collect_vec(rs), Ok(Vec::new()));
}

#[test]
fn collect_vec_aborts_at_first_fatal_error() {
    let rs: Vec<Result<u32, String>> = vec![
        Ok(1),
        Err(String::from("first fatal")),
        Err(String::from("second fatal")),
    ];
    assert_eq!(collect_vec(rs), Err(String::from("first fatal")));
}

#[test]
fn problem_from_string_keeps_message() {
    let p = Problem::from(String::from("file violates rule"));
    assert_eq!(p.message, "file violates rule");
}
