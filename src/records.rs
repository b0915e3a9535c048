//! Test records: an encoding's name, an input and the encoder's output.
use vstd::prelude::*;
use crate::oracles::{
    base32_of, base32hex_of, base58_of, base58xmr_of, base64_of, base64url_of, bech32_of,
    encode_base32, encode_base32hex, encode_base58, encode_base58xmr, encode_base64,
    encode_base64url, encode_bech32, hrp_ok,
};

verus! {

/// Number of encodings recorded for each input.
pub const ENCODING_COUNT: usize = 8;

/// What a test record holds.
pub struct Record {
    pub fn_name: Seq<char>,
    pub data: Seq<u8>,
    pub exp: Seq<char>,
}

/// The record of `data` under the encoding `fn_name`, with output `exp`.
pub open spec fn record(fn_name: Seq<char>, data: Seq<u8>, exp: Seq<char>) -> Record {
    Record { fn_name, data, exp }
}

/// One expected encoding of one input.
#[derive(Debug, Clone, PartialEq, Eq)]
pub struct TestCase {
    pub fn_name: String,
    pub data: Vec<u8>,
    pub exp: String,
}

impl View for TestCase {
    type V = Record;

    open spec fn view(&self) -> Record {
        record(self.fn_name@, self.data@, self.exp@)
    }
}

/// The records of all eight encodings of `d`, in the order `add_all` adds them.
pub open spec fn records_of(d: Seq<u8>) -> Seq<Record> {
    seq![
        record("bech32"@, d, bech32_of("bech32"@, d, false)),
        record("bech32m"@, d, bech32_of("bech32m"@, d, true)),
        record("base32"@, d, base32_of(d)),
        record("base32hex"@, d, base32hex_of(d)),
        record("base58xmr"@, d, base58xmr_of(d)),
        record("base58"@, d, base58_of(d)),
        record("base64"@, d, base64_of(d)),
        record("base64url"@, d, base64url_of(d)),
    ]
}

/// The encoding names, in the order of `records_of`.
pub open spec fn encoding_names() -> Seq<Seq<char>> {
    seq![
        "bech32"@, "bech32m"@, "base32"@, "base32hex"@,
        "base58xmr"@, "base58"@, "base64"@, "base64url"@,
    ]
}

/// Each input gets one record per encoding, each carrying the input itself.
pub proof fn lemma_records_of_shape(d: Seq<u8>)
    ensures
        records_of(d).len() == ENCODING_COUNT,
        forall|j: int| 0 <= j < ENCODING_COUNT ==> {
            &&& (#[trigger] records_of(d)[j]).fn_name == encoding_names()[j]
            &&& records_of(d)[j].data == d
        },
{
    assert forall|j: int| 0 <= j < ENCODING_COUNT implies {
        &&& (#[trigger] records_of(d)[j]).fn_name == encoding_names()[j]
        &&& records_of(d)[j].data == d
    } by {
        if j == 0 {} else if j == 1 {} else if j == 2 {} else if j == 3 {}
        else if j == 4 {} else if j == 5 {} else if j == 6 {} else {}
    }
}

/// An ordered collection of test records.
#[derive(Debug, Clone, PartialEq, Eq)]
pub struct TestCases {
    pub v: Vec<TestCase>,
}

impl View for TestCases {
    type V = Seq<Record>;

    open spec fn view(&self) -> Seq<Record> {
        self.v@.map_values(|t: TestCase| t@)
    }
}

impl TestCases {
    /// An empty collection.
    pub fn new() -> (r: Self)
        ensures
            r@ == Seq::<Record>::empty(),
    {
        let r = TestCases { v: Vec::new() };
        assert(r@ =~= Seq::<Record>::empty());
        r
    }

    fn push_record(&mut self, fn_name: &str, data: &[u8], exp: String)
        ensures
            final(self)@ == old(self)@.push(record(fn_name@, data@, exp@)),
    {
        let t = TestCase { fn_name: fn_name.to_owned(), data: vstd::slice::slice_to_vec(data), exp };
        self.v.push(t);
        assert(final(self)@ =~= old(self)@.push(record(fn_name@, data@, exp@)));
    }

    /// Records the padded base32 encoding of `data`.
    pub fn base32(&mut self, data: &[u8])
        requires
            data@.len() <= usize::MAX / 512,
        ensures
            final(self)@ == old(self)@.push(record("base32"@, data@, base32_of(data@))),
    {
        let exp = encode_base32(data);
        self.push_record("base32", data, exp);
    }

    /// Records the padded base32hex encoding of `data`.
    pub fn base32hex(&mut self, data: &[u8])
        requires
            data@.len() <= usize::MAX / 512,
        ensures
            final(self)@ == old(self)@.push(record("base32hex"@, data@, base32hex_of(data@))),
    {
        let exp = encode_base32hex(data);
        self.push_record("base32hex", data, exp);
    }

    /// Records the Monero base58 encoding of `data`.
    pub fn base58_monero(&mut self, data: &[u8])
        ensures
            final(self)@ == old(self)@.push(record("base58xmr"@, data@, base58xmr_of(data@))),
    {
        let exp = match encode_base58xmr(data) {
            Some(s) => s,
            None => {
                proof {
                    assert(false);
                }
                String::new()
            },
        };
        self.push_record("base58xmr", data, exp);
    }

    /// Records the base58 encoding of `data`.
    pub fn base58(&mut self, data: &[u8])
        ensures
            final(self)@ == old(self)@.push(record("base58"@, data@, base58_of(data@))),
    {
        let exp = encode_base58(data);
        self.push_record("base58", data, exp);
    }

    /// Records the padded base64 encoding of `data`.
    pub fn base64(&mut self, data: &[u8])
        requires
            data@.len() <= usize::MAX / 512,
        ensures
            final(self)@ == old(self)@.push(record("base64"@, data@, base64_of(data@))),
    {
        let exp = encode_base64(data);
        self.push_record("base64", data, exp);
    }

    /// Records the padded URL-safe base64 encoding of `data`.
    pub fn base64url(&mut self, data: &[u8])
        requires
            data@.len() <= usize::MAX / 512,
        ensures
            final(self)@ == old(self)@.push(record("base64url"@, data@, base64url_of(data@))),
    {
        let exp = encode_base64url(data);
        self.push_record("base64url", data, exp);
    }

    /// Records the Bech32 encoding of `data` under the fixed prefix "bech32".
    pub fn bech32(&mut self, data: &[u8])
        ensures
            final(self)@ == old(self)@.push(
                record("bech32"@, data@, bech32_of("bech32"@, data@, false)),
            ),
    {
        proof {
            reveal_strlit("bech32");
            assert(hrp_ok("bech32"@));
        }
        let exp = match encode_bech32("bech32", data, false) {
            Some(s) => s,
            None => {
                proof {
                    assert(false);
                }
                String::new()
            },
        };
        self.push_record("bech32", data, exp);
    }

    /// Records the Bech32m encoding of `data` under the fixed prefix "bech32m".
    pub fn bech32m(&mut self, data: &[u8])
        ensures
            final(self)@ == old(self)@.push(
                record("bech32m"@, data@, bech32_of("bech32m"@, data@, true)),
            ),
    {
        proof {
            reveal_strlit("bech32m");
            assert(hrp_ok("bech32m"@));
        }
        let exp = match encode_bech32("bech32m", data, true) {
            Some(s) => s,
            None => {
                proof {
                    assert(false);
                }
                String::new()
            },
        };
        self.push_record("bech32m", data, exp);
    }

    /// Records all eight encodings of `data`, in the order of `records_of`.
    pub fn add_all(&mut self, data: &[u8])
        requires
            data@.len() <= usize::MAX / 512,
        ensures
            final(self)@ == old(self)@ + records_of(data@),
    {
        self.bech32(data);
        self.bech32m(data);
        self.base32(data);
        self.base32hex(data);
        self.base58_monero(data);
        self.base58(data);
        self.base64(data);
        self.base64url(data);
        assert(final(self)@ =~= old(self)@ + records_of(data@));
    }
}

} // verus!
