//! The full corpus: sized inputs of three shapes, then the edge cases.
use vstd::prelude::*;
use crate::edges::{edge_case, edge_cases, EDGE_CASE_COUNT};
use crate::records::{encoding_names, lemma_records_of_shape, records_of, Record, TestCases, ENCODING_COUNT};
use crate::stream::{random, random_stream};

verus! {

/// Seed of the random buffer that the corpus draws prefixes from.
pub const CORPUS_SEED: u8 = 1;

/// Length of that random buffer.
pub const CORPUS_RANDOM_LEN: usize = 4096;

/// Inputs of each shape have every length below this bound.
pub const MAX_INPUT_LEN: usize = 512;

/// Number of sized inputs: three shapes for each length.
pub const SIZED_INPUT_COUNT: usize = 3 * MAX_INPUT_LEN;

/// Number of inputs in the corpus.
pub const INPUT_COUNT: usize = SIZED_INPUT_COUNT + EDGE_CASE_COUNT;

/// `len` copies of `b`.
pub open spec fn filled(b: u8, len: nat) -> Seq<u8> {
    Seq::new(len, |_k: int| b)
}

/// The input of length `i` and shape `shape`: 0 is a prefix of `rand`, 1 is
/// all zero bytes, 2 is all 0xFF bytes.
pub open spec fn sized_input(rand: Seq<u8>, i: int, shape: int) -> Seq<u8> {
    if shape == 0 {
        rand.take(i)
    } else if shape == 1 {
        filled(0, i as nat)
    } else {
        filled(0xFF, i as nat)
    }
}

/// The `n`-th input of the corpus.
pub open spec fn corpus_input(rand: Seq<u8>, n: int) -> Seq<u8> {
    if n < SIZED_INPUT_COUNT {
        sized_input(rand, n / 3, n % 3)
    } else {
        edge_case(n - SIZED_INPUT_COUNT)
    }
}

/// All inputs of the corpus, in order.
pub open spec fn corpus_inputs(rand: Seq<u8>) -> Seq<Seq<u8>> {
    Seq::new(INPUT_COUNT as nat, |n: int| corpus_input(rand, n))
}

/// The records of each input in turn.
pub open spec fn records_of_inputs(ins: Seq<Seq<u8>>) -> Seq<Record> {
    Seq::new(
        ins.len() * (ENCODING_COUNT as nat),
        |m: int| records_of(ins[m / (ENCODING_COUNT as int)])[m % (ENCODING_COUNT as int)],
    )
}

/// The corpus built from the random buffer `rand`.
pub open spec fn corpus_records(rand: Seq<u8>) -> Seq<Record> {
    records_of_inputs(corpus_inputs(rand))
}

/// Record `j` of the input of length `i` and shape `shape`.
pub open spec fn sized_record(rand: Seq<u8>, i: int, shape: int, j: int) -> Record {
    corpus_records(rand)[(3 * i + shape) * (ENCODING_COUNT as int) + j]
}

/// Record `j` of edge case `e`.
pub open spec fn edge_record(rand: Seq<u8>, e: int, j: int) -> Record {
    corpus_records(rand)[(SIZED_INPUT_COUNT + e) * (ENCODING_COUNT as int) + j]
}

/// The corpus holds `512 * 3 * 8` records for the sized inputs and `256 * 8`
/// for the edge cases. For each length `i` below 512 and each encoding it
/// holds a record of a prefix of the random buffer, of zero bytes and of 0xFF
/// bytes, each of length `i`; for each edge case, one record per encoding.
/// For `i >= 1` the zero and 0xFF inputs differ; at length zero all three
/// inputs are the same empty sequence.
pub proof fn lemma_corpus_layout(rand: Seq<u8>)
    requires
        rand.len() >= MAX_INPUT_LEN - 1,
    ensures
        corpus_records(rand).len() == MAX_INPUT_LEN * 3 * ENCODING_COUNT
            + EDGE_CASE_COUNT * ENCODING_COUNT,
        forall|i: int, shape: int, j: int|
            0 <= i < MAX_INPUT_LEN && 0 <= shape < 3 && 0 <= j < ENCODING_COUNT ==> {
                let rec = #[trigger] sized_record(rand, i, shape, j);
                &&& rec.fn_name == encoding_names()[j]
                &&& rec.data == sized_input(rand, i, shape)
                &&& rec.data.len() == i
            },
        forall|i: int, j: int| 0 <= i < MAX_INPUT_LEN && 0 <= j < ENCODING_COUNT ==> {
            &&& (#[trigger] sized_record(rand, i, 0, j)).data == rand.take(i)
            &&& sized_record(rand, i, 1, j).data == filled(0, i as nat)
            &&& sized_record(rand, i, 2, j).data == filled(0xFF, i as nat)
        },
        forall|e: int, j: int| 0 <= e < EDGE_CASE_COUNT && 0 <= j < ENCODING_COUNT ==> {
            let rec = #[trigger] edge_record(rand, e, j);
            &&& rec.fn_name == encoding_names()[j]
            &&& rec.data == edge_case(e)
        },
        forall|i: int| 1 <= i < MAX_INPUT_LEN ==> #[trigger] filled(0, i as nat) != filled(
            0xFF,
            i as nat,
        ),
        corpus_input(rand, 0) == corpus_input(rand, 1) && corpus_input(rand, 1) == corpus_input(
            rand,
            2,
        ),
{
    let recs = corpus_records(rand);
    assert(recs.len() == INPUT_COUNT * 8);
    assert forall|i: int, shape: int, j: int|
        0 <= i < MAX_INPUT_LEN && 0 <= shape < 3 && 0 <= j < ENCODING_COUNT implies {
            let rec = #[trigger] sized_record(rand, i, shape, j);
            &&& rec.fn_name == encoding_names()[j]
            &&& rec.data == sized_input(rand, i, shape)
            &&& rec.data.len() == i
        } by {
        let n = 3 * i + shape;
        let m = n * 8 + j;
        assert(m / 8 == n && m % 8 == j && 0 <= m < recs.len()) by (nonlinear_arith)
            requires m == n * 8 + j, 0 <= j < 8, 0 <= n < 1536, recs.len() == 1792 * 8;
        assert(n / 3 == i && n % 3 == shape);
        lemma_records_of_shape(corpus_input(rand, n));
    }
    assert forall|i: int, j: int| 0 <= i < MAX_INPUT_LEN && 0 <= j < ENCODING_COUNT implies {
        &&& (#[trigger] sized_record(rand, i, 0, j)).data == rand.take(i)
        &&& sized_record(rand, i, 1, j).data == filled(0, i as nat)
        &&& sized_record(rand, i, 2, j).data == filled(0xFF, i as nat)
    } by {
        assert(sized_record(rand, i, 0, j).data == sized_input(rand, i, 0));
        assert(sized_record(rand, i, 1, j).data == sized_input(rand, i, 1));
        assert(sized_record(rand, i, 2, j).data == sized_input(rand, i, 2));
    }
    assert forall|e: int, j: int| 0 <= e < EDGE_CASE_COUNT && 0 <= j < ENCODING_COUNT implies {
        let rec = #[trigger] edge_record(rand, e, j);
        &&& rec.fn_name == encoding_names()[j]
        &&& rec.data == edge_case(e)
    } by {
        let n = SIZED_INPUT_COUNT + e;
        let m = n * 8 + j;
        assert(m / 8 == n && m % 8 == j && 0 <= m < recs.len()) by (nonlinear_arith)
            requires m == n * 8 + j, 0 <= j < 8, 1536 <= n < 1792, recs.len() == 1792 * 8;
        lemma_records_of_shape(corpus_input(rand, n));
    }
    assert forall|i: int| 1 <= i < MAX_INPUT_LEN implies #[trigger] filled(0, i as nat) != filled(
        0xFF,
        i as nat,
    ) by {
        assert(filled(0, i as nat)[0] != filled(0xFF, i as nat)[0]);
    }
    assert(corpus_input(rand, 0) =~= corpus_input(rand, 1));
    assert(corpus_input(rand, 1) =~= corpus_input(rand, 2));
}

proof fn lemma_records_extend(ins: Seq<Seq<u8>>, n: int)
    requires
        0 <= n < ins.len(),
    ensures
        records_of_inputs(ins.take(n)) + records_of(ins[n]) == records_of_inputs(ins.take(n + 1)),
{
    let lhs = records_of_inputs(ins.take(n)) + records_of(ins[n]);
    let rhs = records_of_inputs(ins.take(n + 1));
    assert(lhs.len() == rhs.len()) by (nonlinear_arith)
        requires lhs.len() == n * 8 + 8, rhs.len() == (n + 1) * 8;
    assert forall|m: int| 0 <= m < lhs.len() implies lhs[m] == rhs[m] by {
        if m < n * 8 {
            assert(m / 8 < n);
        } else {
            assert(m / 8 == n && m % 8 == m - n * 8);
        }
    }
    assert(lhs =~= rhs);
}

/// `len` copies of `b`.
fn filled_vec(b: u8, len: usize) -> (r: Vec<u8>)
    ensures
        r@ == filled(b, len as nat),
{
    let r = vec![b; len];
    assert(r@ =~= filled(b, len as nat));
    r
}

/// Builds the corpus from the random buffer `rand`: for each length `i` below
/// 512, the records of the first `i` bytes of `rand`, of `i` zero bytes and of
/// `i` 0xFF bytes; then the records of every edge case.
pub fn build_corpus(rand: &[u8]) -> (r: TestCases)
    requires
        rand@.len() >= MAX_INPUT_LEN - 1,
    ensures
        r@ == corpus_records(rand@),
{
    let ghost ins = corpus_inputs(rand@);
    let mut a = TestCases::new();
    assert(ins.take(0) =~= Seq::<Seq<u8>>::empty());
    assert(a@ =~= records_of_inputs(ins.take(0)));
    let mut i: usize = 0;
    while i < MAX_INPUT_LEN
        invariant
            ins == corpus_inputs(rand@),
            rand@.len() >= MAX_INPUT_LEN - 1,
            i <= MAX_INPUT_LEN,
            a@ == records_of_inputs(ins.take(3 * i)),
        decreases MAX_INPUT_LEN - i,
    {
        let n: usize = 3 * i;
        let prefix = vstd::slice::slice_subrange(rand, 0, i);
        assert(ins[n as int] == prefix@) by {
            assert(n as int / 3 == i && n as int % 3 == 0);
        }
        proof { lemma_records_extend(ins, n as int); }
        a.add_all(prefix);
        let zeros = filled_vec(0, i);
        assert(ins[n + 1] == zeros@) by {
            assert((n + 1) as int / 3 == i && (n + 1) as int % 3 == 1);
        }
        proof { lemma_records_extend(ins, n + 1); }
        a.add_all(zeros.as_slice());
        let ones = filled_vec(0xFF, i);
        assert(ins[n + 2] == ones@) by {
            assert((n + 2) as int / 3 == i && (n + 2) as int % 3 == 2);
        }
        proof { lemma_records_extend(ins, n + 2); }
        a.add_all(ones.as_slice());
        i = i + 1;
    }
    let cases = edge_cases();
    let mut e: usize = 0;
    while e < EDGE_CASE_COUNT
        invariant
            ins == corpus_inputs(rand@),
            cases@.len() == EDGE_CASE_COUNT,
            forall|k: int| 0 <= k < EDGE_CASE_COUNT ==> (#[trigger] cases@[k])@ == edge_case(k),
            e <= EDGE_CASE_COUNT,
            a@ == records_of_inputs(ins.take(SIZED_INPUT_COUNT + e)),
        decreases EDGE_CASE_COUNT - e,
    {
        assert(ins[SIZED_INPUT_COUNT + e] == cases@[e as int]@);
        proof { lemma_records_extend(ins, SIZED_INPUT_COUNT + e); }
        a.add_all(cases[e].as_slice());
        e = e + 1;
    }
    assert(ins.take(INPUT_COUNT as int) =~= ins);
    a
}

/// The corpus of the fixed seed: `build_corpus` over 4096 bytes of `random(1, ..)`.
/// Its `ensures` fixes one record sequence, so every call returns the same
/// corpus.
pub fn generate_corpus() -> (r: TestCases)
    ensures
        r@ == corpus_records(random_stream(CORPUS_SEED, CORPUS_RANDOM_LEN as nat)),
{
    let rand = random(CORPUS_SEED, CORPUS_RANDOM_LEN);
    build_corpus(rand.as_slice())
}

} // verus!
