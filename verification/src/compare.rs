//! The capture streams and their comparison.
//!
//! Generated code reports every scalar leaf of every value that it passes or
//! receives, as raw bytes. Each side fills two streams, one for inputs and one
//! for outputs. After the run the caller's streams are held against the
//! callee's, call by call, value by value and leaf by leaf.

use vstd::prelude::*;

verus! {

/// What a vector of leaves holds.
pub open spec fn leaves_view(leaves: Seq<Vec<u8>>) -> Seq<Seq<u8>> {
    Seq::new(leaves.len(), |i: int| leaves[i]@)
}

/// What the record of one call holds: for each value its leaves.
pub open spec fn record_view(record: Seq<Vec<Vec<u8>>>) -> Seq<Seq<Seq<u8>>> {
    Seq::new(record.len(), |i: int| leaves_view(record[i]@))
}

/// What a stream holds: for each call its record.
pub open spec fn stream_view(stream: Seq<Vec<Vec<Vec<u8>>>>) -> Seq<Seq<Seq<Seq<u8>>>> {
    Seq::new(stream.len(), |i: int| record_view(stream[i]@))
}

/// One capture stream while it is being filled.
pub struct WriteBuffer {
    /// The records of the calls that are finished.
    pub funcs: Vec<Vec<Vec<Vec<u8>>>>,
    /// The finished values of the call that is being recorded.
    pub vals: Vec<Vec<Vec<u8>>>,
    /// The leaves of the value that is being recorded.
    pub leaves: Vec<Vec<u8>>,
}

impl WriteBuffer {
    /// The records of the calls that are finished.
    pub open spec fn finished_calls(self) -> Seq<Seq<Seq<Seq<u8>>>> {
        stream_view(self.funcs@)
    }

    /// The finished values of the call that is being recorded.
    pub open spec fn pending_values(self) -> Seq<Seq<Seq<u8>>> {
        record_view(self.vals@)
    }

    /// The leaves of the value that is being recorded.
    pub open spec fn pending_leaves(self) -> Seq<Seq<u8>> {
        leaves_view(self.leaves@)
    }

    /// An empty stream.
    pub fn new() -> (r: WriteBuffer)
        ensures
            r.finished_calls() == Seq::<Seq<Seq<Seq<u8>>>>::empty(),
            r.pending_values() == Seq::<Seq<Seq<u8>>>::empty(),
            r.pending_leaves() == Seq::<Seq<u8>>::empty(),
    {
        WriteBuffer { funcs: Vec::new(), vals: Vec::new(), leaves: Vec::new() }
    }

    /// `WRITE`: one leaf of the current value.
    pub fn write(&mut self, bytes: Vec<u8>)
        ensures
            final(self).finished_calls() == old(self).finished_calls(),
            final(self).pending_values() == old(self).pending_values(),
            final(self).pending_leaves() == old(self).pending_leaves().push(bytes@),
    {
        self.leaves.push(bytes);
    }

    /// `FINISHED_VAL`: the current value is complete.
    pub fn finished_val(&mut self)
        ensures
            final(self).finished_calls() == old(self).finished_calls(),
            final(self).pending_values() == old(self).pending_values().push(
                old(self).pending_leaves(),
            ),
            final(self).pending_leaves() == Seq::<Seq<u8>>::empty(),
    {
        let mut value: Vec<Vec<u8>> = Vec::new();
        value.append(&mut self.leaves);
        assert(leaves_view(value@) =~= old(self).pending_leaves());
        self.vals.push(value);
    }

    /// `FINISHED_FUNC`: the current call is complete. Leaves of a value that
    /// was not finished are dropped.
    pub fn finished_func(&mut self)
        ensures
            final(self).finished_calls() == old(self).finished_calls().push(
                old(self).pending_values(),
            ),
            final(self).pending_values() == Seq::<Seq<Seq<u8>>>::empty(),
            final(self).pending_leaves() == Seq::<Seq<u8>>::empty(),
    {
        let mut record: Vec<Vec<Vec<u8>>> = Vec::new();
        record.append(&mut self.vals);
        assert(record_view(record@) =~= old(self).pending_values());
        self.funcs.push(record);
        self.leaves = Vec::new();
    }
}

/// The value at `v` of a record; past its end, a value without leaves.
pub open spec fn value_at(record: Seq<Seq<Seq<u8>>>, v: int) -> Seq<Seq<u8>> {
    if 0 <= v < record.len() {
        record[v]
    } else {
        Seq::empty()
    }
}

/// The leaf at `l` of the value at `v`, if the record has one there.
pub open spec fn leaf_at(record: Seq<Seq<Seq<u8>>>, v: int, l: int) -> Option<Seq<u8>> {
    let value = value_at(record, v);
    if 0 <= l < value.len() {
        Some(value[l])
    } else {
        None
    }
}

/// The two records differ at leaf `l` of value `v`: in a byte, in the length
/// of the leaf, or in that only one of them has the leaf.
pub open spec fn diverge_at(a: Seq<Seq<Seq<u8>>>, b: Seq<Seq<Seq<u8>>>, v: int, l: int) -> bool {
    leaf_at(a, v, l) != leaf_at(b, v, l)
}

/// The two records hold the same leaves.
pub open spec fn agree(a: Seq<Seq<Seq<u8>>>, b: Seq<Seq<Seq<u8>>>) -> bool {
    forall|v: int, l: int| 0 <= v && 0 <= l ==> !#[trigger] diverge_at(a, b, v, l)
}

/// Leaf `l` of value `v` is the first at which the two records differ, values
/// in order and leaves in order within a value.
pub open spec fn is_first_divergence(
    a: Seq<Seq<Seq<u8>>>,
    b: Seq<Seq<Seq<u8>>>,
    v: int,
    l: int,
) -> bool {
    &&& 0 <= v
    &&& 0 <= l
    &&& diverge_at(a, b, v, l)
    &&& forall|v2: int, l2: int|
        0 <= v2 && 0 <= l2 && (v2 < v || (v2 == v && l2 < l)) ==> !#[trigger] diverge_at(
            a,
            b,
            v2,
            l2,
        )
}

/// Which of the two streams of a side a leaf was recorded in.
#[derive(Clone, Copy, Debug, PartialEq, Eq)]
pub enum Role {
    Input,
    Output,
}

/// The first leaf of a call at which the two sides differ.
#[derive(Clone, Debug, PartialEq, Eq)]
pub struct Mismatch {
    /// The function that was called.
    pub func: String,
    /// Whether the leaf belongs to an input or to the output.
    pub role: Role,
    /// Which value of that role.
    pub value: usize,
    /// Which leaf of that value.
    pub leaf: usize,
    /// The bytes that the caller recorded, if it recorded the leaf.
    pub expected: Option<Vec<u8>>,
    /// The bytes that the callee recorded, if it recorded the leaf.
    pub actual: Option<Vec<u8>>,
}

/// What the comparison found for one call.
#[derive(Clone, Debug, PartialEq, Eq)]
pub enum Verdict {
    /// Both sides recorded the same bytes for every leaf.
    Pass,
    /// The sides differ; this is the first leaf at which they do.
    Mismatch(Mismatch),
    /// One of the four streams holds no record of the call.
    Unrecorded,
}

/// What optional bytes hold.
pub open spec fn option_bytes(bytes: Option<Vec<u8>>) -> Option<Seq<u8>> {
    match bytes {
        Some(b) => Some(b@),
        None => None,
    }
}

impl Mismatch {
    /// The mismatch names leaf `l` of value `v` as the first at which the
    /// caller's record `a` and the callee's record `b` differ, with what each
    /// of them holds there.
    pub open spec fn reports(self, a: Seq<Seq<Seq<u8>>>, b: Seq<Seq<Seq<u8>>>) -> bool {
        &&& is_first_divergence(a, b, self.value as int, self.leaf as int)
        &&& option_bytes(self.expected) == leaf_at(a, self.value as int, self.leaf as int)
        &&& option_bytes(self.actual) == leaf_at(b, self.value as int, self.leaf as int)
    }
}

/// Whether `verdict` is what the comparison of one call owes: for the call of
/// `name`, with the caller's and the callee's records of inputs and outputs.
/// Inputs are compared before outputs, and only the first difference is
/// reported.
pub open spec fn verdict_for(
    verdict: Verdict,
    name: Seq<char>,
    caller_inputs: Seq<Seq<Seq<u8>>>,
    callee_inputs: Seq<Seq<Seq<u8>>>,
    caller_outputs: Seq<Seq<Seq<u8>>>,
    callee_outputs: Seq<Seq<Seq<u8>>>,
) -> bool {
    match verdict {
        Verdict::Pass => agree(caller_inputs, callee_inputs) && agree(
            caller_outputs,
            callee_outputs,
        ),
        Verdict::Mismatch(m) => {
            &&& m.func@ == name
            &&& match m.role {
                Role::Input => m.reports(caller_inputs, callee_inputs),
                Role::Output => agree(caller_inputs, callee_inputs) && m.reports(
                    caller_outputs,
                    callee_outputs,
                ),
            }
        },
        Verdict::Unrecorded => false,
    }
}

/// Whether two leaves hold the same bytes.
pub fn same_bytes(a: &Vec<u8>, b: &Vec<u8>) -> (r: bool)
    ensures
        r == (a@ == b@),
{
    if a.len() != b.len() {
        return false;
    }
    let mut i: usize = 0;
    while i < a.len()
        invariant
            i <= a.len(),
            a.len() == b.len(),
            forall|j: int| 0 <= j < i ==> a@[j] == b@[j],
        decreases a.len() - i,
    {
        if a[i] != b[i] {
            return false;
        }
        i += 1;
    }
    assert(a@ =~= b@);
    true
}

fn copy_bytes(bytes: &Vec<u8>) -> (r: Vec<u8>)
    ensures
        r@ == bytes@,
{
    let mut out: Vec<u8> = Vec::new();
    let mut i: usize = 0;
    while i < bytes.len()
        invariant
            i <= bytes.len(),
            out@ == bytes@.take(i as int),
        decreases bytes.len() - i,
    {
        out.push(bytes[i]);
        assert(out@ =~= bytes@.take(i + 1));
        i += 1;
    }
    assert(bytes@.take(bytes@.len() as int) =~= bytes@);
    out
}

/// The leaf at `l` of the value at `v`, if the record has one there.
fn leaf_of(record: &Vec<Vec<Vec<u8>>>, v: usize, l: usize) -> (r: Option<&Vec<u8>>)
    ensures
        match r {
            Some(bytes) => Some(bytes@) == leaf_at(record_view(record@), v as int, l as int),
            None => leaf_at(record_view(record@), v as int, l as int) is None,
        },
{
    if v < record.len() && l < record[v].len() {
        Some(&record[v][l])
    } else {
        None
    }
}

/// Whether the two records differ at leaf `l` of value `v`.
fn differ_at(a: &Vec<Vec<Vec<u8>>>, b: &Vec<Vec<Vec<u8>>>, v: usize, l: usize) -> (r: bool)
    ensures
        r == diverge_at(record_view(a@), record_view(b@), v as int, l as int),
{
    match (leaf_of(a, v, l), leaf_of(b, v, l)) {
        (Some(x), Some(y)) => !same_bytes(x, y),
        (None, None) => false,
        _ => true,
    }
}

fn larger(a: usize, b: usize) -> (r: usize)
    ensures
        r >= a,
        r >= b,
        r == a || r == b,
{
    if a < b {
        b
    } else {
        a
    }
}

/// The first leaf at which the two records differ, as the index of its value
/// and its own index in that value; `None` where they hold the same leaves.
pub fn first_divergence(a: &Vec<Vec<Vec<u8>>>, b: &Vec<Vec<Vec<u8>>>) -> (r: Option<
    (usize, usize),
>)
    ensures
        match r {
            Some((v, l)) => is_first_divergence(
                record_view(a@),
                record_view(b@),
                v as int,
                l as int,
            ),
            None => agree(record_view(a@), record_view(b@)),
        },
{
    let ghost ra = record_view(a@);
    let ghost rb = record_view(b@);
    let values = larger(a.len(), b.len());
    let mut v: usize = 0;
    while v < values
        invariant
            v <= values,
            values >= a.len(),
            values >= b.len(),
            ra == record_view(a@),
            rb == record_view(b@),
            forall|v2: int, l2: int|
                0 <= v2 < v && 0 <= l2 ==> !#[trigger] diverge_at(ra, rb, v2, l2),
        decreases values - v,
    {
        let leaves = larger(
            if v < a.len() {
                a[v].len()
            } else {
                0
            },
            if v < b.len() {
                b[v].len()
            } else {
                0
            },
        );
        let mut l: usize = 0;
        while l < leaves
            invariant
                l <= leaves,
                v < values,
                ra == record_view(a@),
                rb == record_view(b@),
                leaves >= value_at(ra, v as int).len(),
                leaves >= value_at(rb, v as int).len(),
                forall|v2: int, l2: int|
                    0 <= v2 < v && 0 <= l2 ==> !#[trigger] diverge_at(ra, rb, v2, l2),
                forall|l2: int| 0 <= l2 < l ==> !#[trigger] diverge_at(ra, rb, v as int, l2),
            decreases leaves - l,
        {
            if differ_at(a, b, v, l) {
                return Some((v, l));
            }
            l += 1;
        }
        assert forall|l2: int| 0 <= l2 implies !#[trigger] diverge_at(ra, rb, v as int, l2) by {
            if l2 >= leaves {
                assert(leaf_at(ra, v as int, l2) is None);
                assert(leaf_at(rb, v as int, l2) is None);
            }
        }
        v += 1;
    }
    assert forall|v2: int, l2: int| 0 <= v2 && 0 <= l2 implies !#[trigger] diverge_at(
        ra,
        rb,
        v2,
        l2,
    ) by {
        if v2 >= values {
            assert(leaf_at(ra, v2, l2) is None);
            assert(leaf_at(rb, v2, l2) is None);
        }
    }
    None
}

fn copy_leaf(record: &Vec<Vec<Vec<u8>>>, v: usize, l: usize) -> (r: Option<Vec<u8>>)
    ensures
        option_bytes(r) == leaf_at(record_view(record@), v as int, l as int),
{
    match leaf_of(record, v, l) {
        Some(bytes) => Some(copy_bytes(bytes)),
        None => None,
    }
}

/// Compares what the two sides recorded for one call of the function `name`:
/// the inputs first, then the outputs. The first leaf at which the sides
/// differ is reported, with the bytes of both.
pub fn compare_call(
    name: &str,
    caller_inputs: &Vec<Vec<Vec<u8>>>,
    callee_inputs: &Vec<Vec<Vec<u8>>>,
    caller_outputs: &Vec<Vec<Vec<u8>>>,
    callee_outputs: &Vec<Vec<Vec<u8>>>,
) -> (r: Verdict)
    ensures
        verdict_for(
            r,
            name@,
            record_view(caller_inputs@),
            record_view(callee_inputs@),
            record_view(caller_outputs@),
            record_view(callee_outputs@),
        ),
{
    match first_divergence(caller_inputs, callee_inputs) {
        Some((value, leaf)) => Verdict::Mismatch(
            Mismatch {
                func: name.to_owned(),
                role: Role::Input,
                value,
                leaf,
                expected: copy_leaf(caller_inputs, value, leaf),
                actual: copy_leaf(callee_inputs, value, leaf),
            },
        ),
        None => match first_divergence(caller_outputs, callee_outputs) {
            Some((value, leaf)) => Verdict::Mismatch(
                Mismatch {
                    func: name.to_owned(),
                    role: Role::Output,
                    value,
                    leaf,
                    expected: copy_leaf(caller_outputs, value, leaf),
                    actual: copy_leaf(callee_outputs, value, leaf),
                },
            ),
            None => Verdict::Pass,
        },
    }
}

/// Whether each of the four streams holds a record of the call at `i`.
pub open spec fn recorded(
    i: int,
    caller_inputs: Seq<Seq<Seq<Seq<u8>>>>,
    callee_inputs: Seq<Seq<Seq<Seq<u8>>>>,
    caller_outputs: Seq<Seq<Seq<Seq<u8>>>>,
    callee_outputs: Seq<Seq<Seq<Seq<u8>>>>,
) -> bool {
    &&& 0 <= i < caller_inputs.len()
    &&& i < callee_inputs.len()
    &&& i < caller_outputs.len()
    &&& i < callee_outputs.len()
}

/// Compares the four streams of a run, call by call. `names` holds the
/// functions that the run was to call, in order; the verdict at `i` is for the
/// call of `names[i]`. A mismatch in one call does not end the comparison.
pub fn compare(
    names: &Vec<String>,
    caller_inputs: &Vec<Vec<Vec<Vec<u8>>>>,
    callee_inputs: &Vec<Vec<Vec<Vec<u8>>>>,
    caller_outputs: &Vec<Vec<Vec<Vec<u8>>>>,
    callee_outputs: &Vec<Vec<Vec<Vec<u8>>>>,
) -> (r: Vec<Verdict>)
    ensures
        r@.len() == names@.len(),
        forall|i: int|
            0 <= i < names@.len() ==> if recorded(
                i,
                stream_view(caller_inputs@),
                stream_view(callee_inputs@),
                stream_view(caller_outputs@),
                stream_view(callee_outputs@),
            ) {
                verdict_for(
                    #[trigger] r@[i],
                    names@[i]@,
                    stream_view(caller_inputs@)[i],
                    stream_view(callee_inputs@)[i],
                    stream_view(caller_outputs@)[i],
                    stream_view(callee_outputs@)[i],
                )
            } else {
                r@[i] == Verdict::Unrecorded
            },
{
    let mut verdicts: Vec<Verdict> = Vec::new();
    let mut i: usize = 0;
    while i < names.len()
        invariant
            i <= names.len(),
            verdicts@.len() == i,
            forall|k: int|
                0 <= k < i ==> if recorded(
                    k,
                    stream_view(caller_inputs@),
                    stream_view(callee_inputs@),
                    stream_view(caller_outputs@),
                    stream_view(callee_outputs@),
                ) {
                    verdict_for(
                        #[trigger] verdicts@[k],
                        names@[k]@,
                        stream_view(caller_inputs@)[k],
                        stream_view(callee_inputs@)[k],
                        stream_view(caller_outputs@)[k],
                        stream_view(callee_outputs@)[k],
                    )
                } else {
                    verdicts@[k] == Verdict::Unrecorded
                },
        decreases names.len() - i,
    {
        let verdict = if i < caller_inputs.len() && i < callee_inputs.len() && i
            < caller_outputs.len() && i < callee_outputs.len() {
            compare_call(
                names[i].as_str(),
                &caller_inputs[i],
                &callee_inputs[i],
                &caller_outputs[i],
                &callee_outputs[i],
            )
        } else {
            Verdict::Unrecorded
        };
        verdicts.push(verdict);
        i += 1;
    }
    verdicts
}

/// Records that are the same on both sides pass: where caller and callee
/// recorded the same inputs and the same outputs for a call, the only verdict
/// that the comparison can give is `Pass`.
pub proof fn identical_records_pass(
    verdict: Verdict,
    name: Seq<char>,
    inputs: Seq<Seq<Seq<u8>>>,
    outputs: Seq<Seq<Seq<u8>>>,
)
    requires
        verdict_for(verdict, name, inputs, inputs, outputs, outputs),
    ensures
        verdict is Pass,
{
    match verdict {
        Verdict::Mismatch(m) => {
            assert(!diverge_at(inputs, inputs, m.value as int, m.leaf as int));
            assert(!diverge_at(outputs, outputs, m.value as int, m.leaf as int));
        },
        _ => {},
    }
}

/// A leaf of another length is reported where it stands. Let the two sides
/// agree on every input leaf before leaf `l` of value `v`, and let both have
/// recorded that leaf, with different numbers of bytes. Then the verdict is a
/// mismatch that names the function, the inputs, `v` and `l`, and holds the
/// bytes of both sides.
pub proof fn input_length_mismatch_is_located(
    verdict: Verdict,
    name: Seq<char>,
    caller_inputs: Seq<Seq<Seq<u8>>>,
    callee_inputs: Seq<Seq<Seq<u8>>>,
    caller_outputs: Seq<Seq<Seq<u8>>>,
    callee_outputs: Seq<Seq<Seq<u8>>>,
    v: nat,
    l: nat,
)
    requires
        verdict_for(verdict, name, caller_inputs, callee_inputs, caller_outputs, callee_outputs),
        forall|v2: int, l2: int|
            0 <= v2 && 0 <= l2 && (v2 < v || (v2 == v && l2 < l)) ==> !#[trigger] diverge_at(
                caller_inputs,
                callee_inputs,
                v2,
                l2,
            ),
        leaf_at(caller_inputs, v as int, l as int) is Some,
        leaf_at(callee_inputs, v as int, l as int) is Some,
        leaf_at(caller_inputs, v as int, l as int)->0.len() != leaf_at(
            callee_inputs,
            v as int,
            l as int,
        )->0.len(),
    ensures
        verdict matches Verdict::Mismatch(m) && {
            &&& m.func@ == name
            &&& m.role == Role::Input
            &&& m.value == v
            &&& m.leaf == l
            &&& option_bytes(m.expected) == leaf_at(caller_inputs, v as int, l as int)
            &&& option_bytes(m.actual) == leaf_at(callee_inputs, v as int, l as int)
        },
{
    assert(diverge_at(caller_inputs, callee_inputs, v as int, l as int));
    match verdict {
        Verdict::Mismatch(m) => {
            if m.role == Role::Input {
                lemma_first_divergence_is_unique(
                    caller_inputs,
                    callee_inputs,
                    m.value as int,
                    m.leaf as int,
                    v as int,
                    l as int,
                );
            }
        },
        _ => {},
    }
}

/// The same for the output, where the two sides agree on all inputs.
pub proof fn output_length_mismatch_is_located(
    verdict: Verdict,
    name: Seq<char>,
    caller_inputs: Seq<Seq<Seq<u8>>>,
    callee_inputs: Seq<Seq<Seq<u8>>>,
    caller_outputs: Seq<Seq<Seq<u8>>>,
    callee_outputs: Seq<Seq<Seq<u8>>>,
    v: nat,
    l: nat,
)
    requires
        verdict_for(verdict, name, caller_inputs, callee_inputs, caller_outputs, callee_outputs),
        agree(caller_inputs, callee_inputs),
        forall|v2: int, l2: int|
            0 <= v2 && 0 <= l2 && (v2 < v || (v2 == v && l2 < l)) ==> !#[trigger] diverge_at(
                caller_outputs,
                callee_outputs,
                v2,
                l2,
            ),
        leaf_at(caller_outputs, v as int, l as int) is Some,
        leaf_at(callee_outputs, v as int, l as int) is Some,
        leaf_at(caller_outputs, v as int, l as int)->0.len() != leaf_at(
            callee_outputs,
            v as int,
            l as int,
        )->0.len(),
    ensures
        verdict matches Verdict::Mismatch(m) && {
            &&& m.func@ == name
            &&& m.role == Role::Output
            &&& m.value == v
            &&& m.leaf == l
            &&& option_bytes(m.expected) == leaf_at(caller_outputs, v as int, l as int)
            &&& option_bytes(m.actual) == leaf_at(callee_outputs, v as int, l as int)
        },
{
    assert(diverge_at(caller_outputs, callee_outputs, v as int, l as int));
    match verdict {
        Verdict::Mismatch(m) => {
            if m.role == Role::Input {
                assert(!diverge_at(caller_inputs, callee_inputs, m.value as int, m.leaf as int));
            } else {
                lemma_first_divergence_is_unique(
                    caller_outputs,
                    callee_outputs,
                    m.value as int,
                    m.leaf as int,
                    v as int,
                    l as int,
                );
            }
        },
        _ => {},
    }
}

/// Two records differ first at one place only.
pub proof fn lemma_first_divergence_is_unique(
    a: Seq<Seq<Seq<u8>>>,
    b: Seq<Seq<Seq<u8>>>,
    v1: int,
    l1: int,
    v2: int,
    l2: int,
)
    requires
        is_first_divergence(a, b, v1, l1),
        is_first_divergence(a, b, v2, l2),
    ensures
        v1 == v2,
        l1 == l2,
{
    if v1 < v2 || (v1 == v2 && l1 < l2) {
        assert(!diverge_at(a, b, v1, l1));
    } else if v2 < v1 || (v2 == v1 && l2 < l1) {
        assert(!diverge_at(a, b, v2, l2));
    }
}

} // verus!
