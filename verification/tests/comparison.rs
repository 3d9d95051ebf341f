use abi_checker::compare::compare;
use abi_checker::compare::compare_call;
use abi_checker::compare::first_divergence;
use abi_checker::compare::same_bytes;
use abi_checker::compare::Mismatch;
use abi_checker::compare::Role;
use abi_checker::compare::Verdict;
use abi_checker::compare::WriteBuffer;

type Record = Vec<Vec<Vec<u8>>>;

fn record(values: &[&[&[u8]]]) -> Record {
    values.iter().map(|leaves| leaves.iter().map(|bytes| bytes.to_vec()).collect()).collect()
}

#[test]
fn bytes_are_compared_with_their_length() {
    assert!(same_bytes(&vec![], &vec![]));
    assert!(same_bytes(&vec![1, 2, 3], &vec![1, 2, 3]));
    assert!(!same_bytes(&vec![1, 2, 3], &vec![1, 2]));
    assert!(!same_bytes(&vec![1, 2], &vec![1, 2, 3]));
    assert!(!same_bytes(&vec![1, 2, 3], &vec![1, 9, 3]));
}

#[test]
fn buffer_groups_leaves_by_value_and_call() {
    let mut buffer = WriteBuffer::new();
    assert!(buffer.funcs.is_empty());
    buffer.write(vec![1, 0, 0, 0]);
    buffer.write(vec![2, 0]);
    buffer.finished_val();
    buffer.write(vec![3]);
    buffer.finished_val();
    assert!(buffer.funcs.is_empty());
    buffer.finished_func();
    buffer.finished_val();
    buffer.finished_func();
    buffer.finished_func();
    assert_eq!(
        buffer.funcs,
        vec![record(&[&[&[1, 0, 0, 0], &[2, 0]], &[&[3]]]), record(&[&[]]), record(&[])]
    );
    assert!(buffer.vals.is_empty());
    assert!(buffer.leaves.is_empty());
}

#[test]
fn buffer_drops_leaves_of_an_unfinished_value() {
    let mut buffer = WriteBuffer::new();
    buffer.write(vec![1]);
    buffer.finished_val();
    buffer.write(vec![2]);
    buffer.finished_func();
    assert_eq!(buffer.funcs, vec![record(&[&[&[1]]])]);
    buffer.write(vec![3]);
    buffer.finished_val();
    buffer.finished_func();
    assert_eq!(buffer.funcs, vec![record(&[&[&[1]]]), record(&[&[&[3]]])]);
}

#[test]
fn equal_records_do_not_diverge() {
    let a = record(&[&[&[1, 2], &[3]], &[&[4]]]);
    assert_eq!(first_divergence(&a, &a.clone()), None);
    assert_eq!(first_divergence(&record(&[]), &record(&[])), None);
    assert_eq!(first_divergence(&record(&[&[]]), &record(&[])), None);
}

#[test]
fn first_divergence_goes_by_value_then_leaf() {
    let a = record(&[&[&[1, 2], &[3]], &[&[4], &[5]]]);
    assert_eq!(first_divergence(&a, &record(&[&[&[1, 2], &[3]], &[&[4], &[6]]])), Some((1, 1)));
    assert_eq!(first_divergence(&a, &record(&[&[&[1, 2], &[9]], &[&[0], &[6]]])), Some((0, 1)));
    assert_eq!(first_divergence(&a, &record(&[&[&[1], &[3]], &[&[4], &[5]]])), Some((0, 0)));
    assert_eq!(first_divergence(&a, &record(&[&[&[1, 2], &[3]], &[&[4]]])), Some((1, 1)));
    assert_eq!(first_divergence(&a, &record(&[&[&[1, 2], &[3]]])), Some((1, 0)));
    assert_eq!(first_divergence(&record(&[&[&[1, 2]]]), &a), Some((0, 1)));
    assert_eq!(first_divergence(&a, &record(&[&[&[1, 2], &[3], &[7]], &[&[4], &[5]]])), Some((0, 2)));
}

#[test]
fn inputs_are_compared_before_outputs() {
    let verdict = compare_call(
        "f",
        &record(&[&[&[1]]]),
        &record(&[&[&[2]]]),
        &record(&[&[&[3]]]),
        &record(&[&[&[4]]]),
    );
    assert_eq!(
        verdict,
        Verdict::Mismatch(Mismatch {
            func: String::from("f"),
            role: Role::Input,
            value: 0,
            leaf: 0,
            expected: Some(vec![1]),
            actual: Some(vec![2]),
        })
    );
}

#[test]
fn output_mismatch_is_reported_with_both_sides() {
    let inputs = record(&[&[&[1]]]);
    let verdict = compare_call(
        "f",
        &inputs,
        &inputs.clone(),
        &record(&[&[&[3, 0], &[4, 0]]]),
        &record(&[&[&[3, 0]]]),
    );
    assert_eq!(
        verdict,
        Verdict::Mismatch(Mismatch {
            func: String::from("f"),
            role: Role::Output,
            value: 0,
            leaf: 1,
            expected: Some(vec![4, 0]),
            actual: None,
        })
    );
    let verdict = compare_call("f", &inputs, &inputs.clone(), &record(&[]), &record(&[&[&[]]]));
    assert_eq!(
        verdict,
        Verdict::Mismatch(Mismatch {
            func: String::from("f"),
            role: Role::Output,
            value: 0,
            leaf: 0,
            expected: None,
            actual: Some(vec![]),
        })
    );
}

#[test]
fn comparison_goes_on_after_a_mismatch() {
    let names = vec![String::from("first"), String::from("second"), String::from("third")];
    let caller_inputs = vec![record(&[&[&[1]]]), record(&[&[&[2]]]), record(&[&[&[3]]])];
    let callee_inputs = vec![record(&[&[&[9]]]), record(&[&[&[2]]]), record(&[&[&[3]]])];
    let caller_outputs = vec![record(&[]), record(&[&[&[5]]]), record(&[&[&[6, 6]]])];
    let callee_outputs = vec![record(&[]), record(&[&[&[5]]]), record(&[&[&[6, 7]]])];
    let verdicts = compare(&names, &caller_inputs, &callee_inputs, &caller_outputs, &callee_outputs);
    assert_eq!(
        verdicts,
        vec![
            Verdict::Mismatch(Mismatch {
                func: String::from("first"),
                role: Role::Input,
                value: 0,
                leaf: 0,
                expected: Some(vec![1]),
                actual: Some(vec![9]),
            }),
            Verdict::Pass,
            Verdict::Mismatch(Mismatch {
                func: String::from("third"),
                role: Role::Output,
                value: 0,
                leaf: 0,
                expected: Some(vec![6, 6]),
                actual: Some(vec![6, 7]),
            }),
        ]
    );
}

#[test]
fn call_without_a_record_is_unrecorded() {
    let names = vec![String::from("first"), String::from("second")];
    let both = vec![record(&[&[&[1]]]), record(&[&[&[2]]])];
    let one = vec![record(&[&[&[1]]])];
    assert_eq!(
        compare(&names, &both, &both.clone(), &both.clone(), &one),
        vec![Verdict::Pass, Verdict::Unrecorded]
    );
    assert_eq!(
        compare(&names, &one, &both, &both.clone(), &both.clone()),
        vec![Verdict::Pass, Verdict::Unrecorded]
    );
    let none: Vec<Record> = vec![];
    assert_eq!(
        compare(&names, &none, &none.clone(), &none.clone(), &none.clone()),
        vec![Verdict::Unrecorded, Verdict::Unrecorded]
    );
}

#[test]
fn records_beyond_the_names_are_ignored() {
    let names = vec![String::from("only")];
    let caller = vec![record(&[&[&[1]]]), record(&[&[&[2]]])];
    let callee = vec![record(&[&[&[1]]]), record(&[&[&[3]]])];
    assert_eq!(compare(&names, &caller, &callee, &caller.clone(), &callee.clone()), vec![Verdict::Pass]);
}

#[test]
fn buffers_of_two_sides_compare() {
    let mut caller_inputs = WriteBuffer::new();
    let mut caller_outputs = WriteBuffer::new();
    let mut callee_inputs = WriteBuffer::new();
    let mut callee_outputs = WriteBuffer::new();
    caller_inputs.write(vec![1, 0, 0, 0]);
    caller_inputs.finished_val();
    callee_inputs.write(vec![1, 0, 0, 0]);
    callee_inputs.finished_val();
    callee_outputs.write(vec![3, 0, 0, 0]);
    callee_outputs.finished_val();
    callee_inputs.finished_func();
    callee_outputs.finished_func();
    caller_outputs.write(vec![3, 0, 0, 0]);
    caller_outputs.finished_val();
    caller_inputs.finished_func();
    caller_outputs.finished_func();
    let names = vec![String::from("f")];
    assert_eq!(
        compare(
            &names,
            &caller_inputs.funcs,
            &callee_inputs.funcs,
            &caller_outputs.funcs,
            &callee_outputs.funcs
        ),
        vec![Verdict::Pass]
    );
}
