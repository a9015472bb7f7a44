use vstd::prelude::*;

verus! {

/// The bytes of `_piet.png`, the replacement for the extension of an input
/// file name.
pub open spec fn output_suffix() -> Seq<u8> {
    seq![0x5Fu8, 0x70u8, 0x69u8, 0x65u8, 0x74u8, 0x2Eu8, 0x70u8, 0x6Eu8, 0x67u8]
}

/// The byte of the extension separator `.`.
pub const DOT: u8 = 0x2E;

/// Derives the output file name from an input file name, both as bytes: the
/// part up to the final extension separator, then `_piet.png`. A name with no
/// separator has no derivable output name.
pub fn output_file_name(name: &Vec<u8>) -> (r: Option<Vec<u8>>)
    ensures
        match r {
            None => forall|i: int| 0 <= i < name@.len() ==> name@[i] != DOT,
            Some(out) => exists|i: int|
                {
                    &&& 0 <= i < name@.len()
                    &&& name@[i] == DOT
                    &&& (forall|j: int| i < j < name@.len() ==> name@[j] != DOT)
                    &&& out@ == name@.take(i) + output_suffix()
                },
        },
{
    let n = name.len();
    let mut dot: usize = n;
    let mut i: usize = 0;
    while i < n
        invariant
            i <= n,
            dot <= n,
            n == name@.len(),
            dot == n ==> forall|j: int| 0 <= j < i ==> name@[j] != DOT,
            dot < n ==> name@[dot as int] == DOT,
            dot < n ==> forall|j: int| dot < j < i ==> name@[j] != DOT,
            dot < n ==> dot < i,
        decreases n - i,
    {
        if name[i] == DOT {
            dot = i;
        }
        i = i + 1;
    }
    if dot == n {
        return None;
    }
    let mut out: Vec<u8> = Vec::new();
    let mut j: usize = 0;
    while j < dot
        invariant
            j <= dot,
            dot < n,
            n == name@.len(),
            out@ =~= name@.take(j as int),
        decreases dot - j,
    {
        out.push(name[j]);
        j = j + 1;
    }
    out.push(0x5F);
    out.push(0x70);
    out.push(0x69);
    out.push(0x65);
    out.push(0x74);
    out.push(0x2E);
    out.push(0x70);
    out.push(0x6E);
    out.push(0x67);
    proof {
        assert(out@ =~= name@.take(dot as int) + output_suffix());
    }
    Some(out)
}

} // verus!
