//! Small helpers for handing byte buffers to bit-oriented encoders.
use vstd::prelude::*;
use vstd::string::StringExecFns;

verus! {

/// The bytes of `bs` (none when absent) with their length in bits.
pub fn bitsequence<'a>(bs: Option<&'a [u8]>) -> (r: (&'a [u8], u64))
    requires
        bs is Some ==> 8 * bs->0@.len() <= u64::MAX,
    ensures
        bs is Some ==> r.0@ == bs->0@,
        bs is None ==> r.0@.len() == 0,
        r.1 == 8 * r.0@.len(),
{
    match bs {
        Some(n) => (n, 8 * (n.len() as u64)),
        None => {
            let e: &[u8] = &[];
            (e, 0)
        },
    }
}

/// Succeeds when the status `out` is zero; otherwise fails with the message
/// "Failed " followed by `name`.
pub fn check_output(name: &str, out: i32) -> (r: Result<(), String>)
    ensures
        r is Ok <==> out == 0,
        r is Err ==> r->Err_0@ == "Failed "@ + name@,
{
    if out != 0 {
        Err("Failed ".to_owned().concat(name))
    } else {
        Ok(())
    }
}

} // verus!
