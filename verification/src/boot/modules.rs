//! Boot modules as kernel byte slices.

use vstd::prelude::*;

verus! {

/// A bootloader-supplied file payload.
pub struct BootBlob<'a> {
    pub bytes: &'a [u8],
}

/// The boot modules worth keeping: `files` holds each module's payload, or
/// `None` where the module pointer or its address was null; empty payloads
/// are skipped too. Order is kept.
pub fn boot_modules<'a>(files: &Vec<Option<&'a [u8]>>) -> (r: Vec<BootBlob<'a>>)
    ensures
        r@.map_values(|b: BootBlob<'a>| b.bytes@) == kept_payloads(files@),
{
    let mut out: Vec<BootBlob<'a>> = Vec::new();
    let mut i: usize = 0;
    while i < files.len()
        invariant
            i <= files@.len(),
            out@.map_values(|b: BootBlob<'a>| b.bytes@) == kept_payloads(files@.take(i as int)),
        decreases files@.len() - i,
    {
        proof {
            assert(files@.take(i as int + 1).drop_last() =~= files@.take(i as int));
        }
        match files[i] {
            Some(bytes) => {
                if bytes.len() > 0 {
                    out.push(BootBlob { bytes });
                    proof {
                        assert(out@.map_values(|b: BootBlob<'a>| b.bytes@) =~= kept_payloads(files@.take(i as int + 1)));
                    }
                }
            },
            None => {},
        }
        i += 1;
    }
    proof {
        assert(files@.take(files@.len() as int) =~= files@);
    }
    out
}

/// The non-empty payloads of `files`, in order.
pub open spec fn kept_payloads<'a>(files: Seq<Option<&'a [u8]>>) -> Seq<Seq<u8>>
    decreases files.len(),
{
    if files.len() == 0 {
        Seq::empty()
    } else {
        let prev = kept_payloads(files.drop_last());
        match files.last() {
            Some(b) => if b@.len() > 0 { prev.push(b@) } else { prev },
            None => prev,
        }
    }
}

} // verus!
