use vstd::prelude::*;

verus! {

/// Seconds elapsed between two instants (each given as whole seconds since
/// some fixed epoch), if both are known and in order.  A stop time earlier
/// than the start time yields `None`, as does a missing endpoint.
pub fn elapsed(start_time: Option<u64>, stop_time: Option<u64>) -> (r: Option<u64>)
    ensures
        r == match (start_time, stop_time) {
            (Some(start), Some(stop)) => if start <= stop {
                Some((stop - start) as u64)
            } else {
                None::<u64>
            },
            _ => None::<u64>,
        },
{
    if let (Some(start), Some(stop)) = (start_time, stop_time) {
        if start <= stop {
            return Some(stop - start);
        }
    }
    None
}

/// The ASCII upper-case hex digit of a value below 16 (48 is `0`, 65 is `A`).
pub open spec fn hex_digit(n: u8) -> u8
    recommends
        n < 16,
{
    if n < 10 {
        (48 + n) as u8
    } else {
        (65 + (n - 10)) as u8
    }
}

/// A digest printed as colon-separated upper-case hex pairs, as the
/// `a=fingerprint` line carries it: `XX:XX:...:XX`.
pub open spec fn spec_fingerprint(d: Seq<u8>) -> Seq<u8>
    decreases d.len(),
{
    if d.len() == 0 {
        seq![]
    } else if d.len() == 1 {
        seq![hex_digit(d[0] / 16), hex_digit(d[0] % 16)]
    } else {
        spec_fingerprint(d.drop_last()) + seq![
            58u8,
            hex_digit(d.last() / 16),
            hex_digit(d.last() % 16),
        ]
    }
}

/// Prints a certificate digest as colon-separated upper-case hex pairs.
pub fn format_fingerprint(digest: &Vec<u8>) -> (r: Vec<u8>)
    ensures
        r@ == spec_fingerprint(digest@),
{
    let mut out: Vec<u8> = Vec::new();
    proof {
        assert(digest@.take(0) =~= Seq::<u8>::empty());
        assert(out@ =~= spec_fingerprint(digest@.take(0)));
    }
    let mut i: usize = 0;
    while i < digest.len()
        invariant
            i <= digest@.len(),
            out@ == spec_fingerprint(digest@.take(i as int)),
        decreases digest@.len() - i,
    {
        if i > 0 {
            out.push(58);
        }
        let b = digest[i];
        let hi = b / 16;
        let lo = b % 16;
        out.push(if hi < 10 { 48 + hi } else { 65 + (hi - 10) });
        out.push(if lo < 10 { 48 + lo } else { 65 + (lo - 10) });
        proof {
            assert(digest@.take(i + 1).drop_last() =~= digest@.take(i as int));
            assert(digest@.take(i + 1).last() == digest@[i as int]);
            assert(out@ =~= spec_fingerprint(digest@.take(i + 1)));
        }
        i = i + 1;
    }
    proof {
        assert(digest@.take(digest@.len() as int) =~= digest@);
    }
    out
}

} // verus!
