//! 9-bit framing over the driver's two-bytes-per-word serial encoding.
//!
//! Each 9-bit word on the bus is carried as two driver bytes: the low byte is
//! the data, bit 0 of the high byte is the mode bit.  An outgoing block is the
//! address byte with the mode bit set, the remaining request bytes with it
//! clear, and the block checksum with it clear.  An incoming block is zero or
//! more data words with the mode bit clear, ended by one word with it set.

use crate::checksum::checksum_spec;
use crate::checksum::checksum;
use vstd::prelude::*;

verus! {

/// The driver words for the data bytes of a request after its address byte:
/// each byte paired with a cleared mode bit.
pub open spec fn data_words(s: Seq<u8>) -> Seq<u8>
    decreases s.len(),
{
    if s.len() == 0 {
        Seq::empty()
    } else {
        seq![s[0], 0u8] + data_words(s.skip(1))
    }
}

/// The full wire image of a request block: the address byte with the mode bit
/// set, the data bytes, and the checksum word.
pub open spec fn wire_words(req: Seq<u8>) -> Seq<u8>
    recommends
        req.len() >= 1,
{
    seq![req[0], 1u8] + data_words(req.skip(1)) + seq![checksum_spec(req), 0u8]
}

proof fn lemma_data_words_snoc(s: Seq<u8>, x: u8)
    ensures
        data_words(s.push(x)) == data_words(s) + seq![x, 0u8],
    decreases s.len(),
{
    let t = s.push(x);
    if s.len() == 0 {
        assert(t.skip(1) =~= Seq::empty());
        assert(data_words(t) == seq![t[0], 0u8] + data_words(t.skip(1)));
        assert(t[0] == x);
        assert(data_words(t) =~= data_words(s) + seq![x, 0u8]);
    } else {
        lemma_data_words_snoc(s.skip(1), x);
        assert(t.skip(1) =~= s.skip(1).push(x));
        assert(data_words(t) == seq![t[0], 0u8] + data_words(t.skip(1)));
        assert(data_words(t) =~= data_words(s) + seq![x, 0u8]);
    }
}

/// The length of the data words is twice the number of data bytes.
pub proof fn lemma_data_words_len(s: Seq<u8>)
    ensures
        data_words(s).len() == 2 * s.len(),
    decreases s.len(),
{
    if s.len() > 0 {
        lemma_data_words_len(s.skip(1));
    }
}

/// Encodes a request block into the driver words that transmit it.
pub fn encode_request(request: &[u8]) -> (r: Vec<u8>)
    requires
        1 <= request@.len() < 40,
    ensures
        r@ == wire_words(request@),
        r@.len() == 2 * request@.len() + 2,
{
    let mut out: Vec<u8> = Vec::new();
    out.push(request[0]);
    out.push(1u8);
    let mut i: usize = 1;
    while i < request.len()
        invariant
            1 <= i <= request@.len() < 40,
            out@ == seq![request@[0], 1u8] + data_words(request@.subrange(1, i as int)),
        decreases request@.len() - i,
    {
        proof {
            lemma_data_words_snoc(request@.subrange(1, i as int), request@[i as int]);
            assert(request@.subrange(1, i + 1) =~= request@.subrange(1, i as int).push(
                request@[i as int],
            ));
        }
        out.push(request[i]);
        out.push(0u8);
        i = i + 1;
    }
    let chk = checksum(request);
    out.push(chk);
    out.push(0u8);
    proof {
        assert(request@.subrange(1, request@.len() as int) =~= request@.skip(1));
        lemma_data_words_len(request@.skip(1));
        assert(out@ =~= wire_words(request@));
    }
    out
}

/// The data bytes of a received stream: the low bytes of every word before
/// the first word whose mode bit is set.
pub open spec fn scan_data(s: Seq<u8>) -> Seq<u8>
    decreases s.len(),
{
    if s.len() < 2 {
        Seq::empty()
    } else if s[1] == 1 {
        Seq::empty()
    } else {
        seq![s[0]] + scan_data(s.skip(2))
    }
}

/// The terminator of a received stream: the low byte of the first word whose
/// mode bit is set, if any word has it.
pub open spec fn scan_term(s: Seq<u8>) -> Option<u8>
    decreases s.len(),
{
    if s.len() < 2 {
        None
    } else if s[1] == 1 {
        Some(s[0])
    } else {
        scan_term(s.skip(2))
    }
}

/// Scanning a stream extended past a terminator-free prefix continues in the
/// extension.
pub proof fn lemma_scan_append(a: Seq<u8>, b: Seq<u8>)
    requires
        a.len() % 2 == 0,
        scan_term(a) is None,
    ensures
        scan_data(a + b) == scan_data(a) + scan_data(b),
        scan_term(a + b) == scan_term(b),
    decreases a.len(),
{
    if a.len() == 0 {
        assert(a + b =~= b);
        assert(scan_data(a + b) =~= scan_data(a) + scan_data(b));
    } else {
        lemma_scan_append(a.skip(2), b);
        assert((a + b).skip(2) =~= a.skip(2) + b);
        assert(scan_data(a + b) =~= scan_data(a) + scan_data(b));
    }
}

/// Once a prefix holds the terminator, nothing after it changes the scan.
pub proof fn lemma_scan_append_term(a: Seq<u8>, b: Seq<u8>)
    requires
        scan_term(a) is Some,
    ensures
        scan_data(a + b) == scan_data(a),
        scan_term(a + b) == scan_term(a),
    decreases a.len(),
{
    if a.len() < 2 {
    } else if a[1] == 1 {
        assert((a + b)[1] == a[1]);
        assert((a + b)[0] == a[0]);
    } else {
        lemma_scan_append_term(a.skip(2), b);
        assert((a + b).skip(2) =~= a.skip(2) + b);
        assert(scan_data(a + b) =~= scan_data(a));
    }
}

/// What one batch of received words contributed.
#[derive(Debug, Clone, Copy, PartialEq, Eq, Structural)]
pub enum ScanOutcome {
    /// All words were data; the reply's terminator is still to come.
    NeedMore,
    /// A word with the mode bit set ended the reply; its low byte is carried.
    Terminator(u8),
    /// A data byte arrived after the longest legal reply was already full;
    /// the byte is carried for diagnostics.
    Overflow(u8),
}

/// Appends the data bytes of one received batch to the reply being collected,
/// stopping at the first word with the mode bit set, and refusing to grow the
/// reply past the longest legal block.
pub fn scan_words(batch: &[u8], response: &mut Vec<u8>) -> (r: ScanOutcome)
    requires
        batch@.len() % 2 == 0,
        old(response)@.len() <= 39,
    ensures
        ({
            let d = scan_data(batch@);
            let full = old(response)@.len() + d.len();
            match r {
                ScanOutcome::NeedMore => full <= 39 && scan_term(batch@) is None && final(response)@
                    == old(response)@ + d,
                ScanOutcome::Terminator(b) => full <= 39 && scan_term(batch@) == Some(b)
                    && final(response)@ == old(response)@ + d,
                ScanOutcome::Overflow(b) => full > 39 && b == d[39 - old(response)@.len()]
                    && final(response)@ == old(response)@ + d.take(39 - old(response)@.len()),
            }
        }),
        final(response)@.len() <= 39,
{
    let ghost base = old(response)@;
    let mut i: usize = 0;
    proof {
        assert(batch@.skip(0) =~= batch@);
        assert(response@.skip(base.len() as int) =~= Seq::<u8>::empty());
    }
    loop
        invariant
            i % 2 == 0,
            i <= batch@.len(),
            batch@.len() % 2 == 0,
            base.len() <= 39,
            base == old(response)@,
            response@.len() <= 39,
            scan_data(batch@) == response@.skip(base.len() as int) + scan_data(
                batch@.skip(i as int),
            ),
            scan_term(batch@) == scan_term(batch@.skip(i as int)),
            response@ == base + response@.skip(base.len() as int),
        decreases batch@.len() - i,
    {
        if batch.len() - i < 2 {
            proof {
                assert(batch@.skip(i as int).len() == 0);
                assert(scan_data(batch@) =~= response@.skip(base.len() as int));
            }
            return ScanOutcome::NeedMore;
        }
        let bvalue = batch[i];
        let bflag = batch[i + 1];
        proof {
            assert(batch@.skip(i as int)[0] == batch@[i as int]);
            assert(batch@.skip(i as int)[1] == batch@[i + 1]);
            assert(batch@.skip(i as int).skip(2) =~= batch@.skip(i + 2));
        }
        if bflag == 1 {
            proof {
                assert(scan_data(batch@.skip(i as int)) =~= Seq::empty());
                assert(scan_data(batch@) =~= response@.skip(base.len() as int));
            }
            return ScanOutcome::Terminator(bvalue);
        }
        if response.len() >= 39 {
            proof {
                let d = scan_data(batch@);
                let done = response@.skip(base.len() as int);
                assert(scan_data(batch@.skip(i as int))[0] == bvalue);
                assert(d.len() == done.len() + scan_data(batch@.skip(i as int)).len());
                assert(d[39 - base.len()] == bvalue);
                assert(d.take(39 - base.len()) =~= done);
            }
            return ScanOutcome::Overflow(bvalue);
        }
        let ghost pre = response@;
        response.push(bvalue);
        proof {
            assert(response@.skip(base.len() as int) =~= pre.skip(base.len() as int) + seq![
                bvalue,
            ]);
        }
        i = i + 2;
    }
}

} // verus!
