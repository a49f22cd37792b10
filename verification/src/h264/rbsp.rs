//! EBSP-to-RBSP conversion and RBSP trailing-bit validation.

use std::borrow::Cow;

use vstd::prelude::*;

use super::bits::{bit_at, BitReader, Cursor};
use super::error::{H264Error, Result};

verus! {

/// `prefix` in front of a successfully decoded rest.
pub open spec fn prepend(prefix: Seq<u8>, rest: Result<Seq<u8>>) -> Result<Seq<u8>> {
    match rest {
        Ok(bytes) => Ok(prefix + bytes),
        Err(error) => Err(error),
    }
}

/// The payload that the bytes of `ebsp` from `from` on stand for: each
/// `00 00 03` in front of a byte up to `03` loses its `03`, and two zero bytes
/// are never followed by a byte up to `03` otherwise.
pub open spec fn unescaped(ebsp: Seq<u8>, from: int) -> Result<Seq<u8>>
    decreases ebsp.len() - from,
{
    if from + 2 >= ebsp.len() {
        Ok(ebsp.skip(from))
    } else if ebsp[from] == 0 && ebsp[from + 1] == 0 && ebsp[from + 2] <= 3 {
        if ebsp[from + 2] < 3 || from + 3 >= ebsp.len() || ebsp[from + 3] > 3 {
            Err(H264Error::InvalidRbspEscape)
        } else {
            prepend(seq![0u8, 0u8], unescaped(ebsp, from + 3))
        }
    } else {
        prepend(seq![ebsp[from]], unescaped(ebsp, from + 1))
    }
}

/// The bytes of a payload, borrowed or owned.
pub open spec fn payload_bytes(payload: Cow<'_, [u8]>) -> Seq<u8> {
    match payload {
        Cow::Borrowed(bytes) => bytes@,
        Cow::Owned(bytes) => bytes@,
    }
}

/// `memchr::memchr`: the index of the first byte of `haystack` equal to
/// `needle`, or `None` if there is no such byte.
#[verifier::external_body]
fn find_byte(needle: u8, haystack: &[u8]) -> (found: Option<usize>)
    ensures
        match found {
            Some(index) => index < haystack@.len() && haystack@[index as int] == needle
                && forall|i: int| 0 <= i < index ==> haystack@[i] != needle,
            None => forall|i: int| 0 <= i < haystack@.len() ==> haystack@[i] != needle,
        },
{
    memchr::memchr(needle, haystack)
}

/// Bytes without a zero are copied.
proof fn lemma_skip_nonzero(ebsp: Seq<u8>, from: int, to: int)
    requires
        0 <= from <= to <= ebsp.len(),
        forall|i: int| from <= i < to ==> ebsp[i] != 0,
    ensures
        unescaped(ebsp, from) == prepend(ebsp.subrange(from, to), unescaped(ebsp, to)),
    decreases to - from,
{
    if from == to {
        assert(ebsp.subrange(from, to) =~= Seq::<u8>::empty());
        if let Ok(rest) = unescaped(ebsp, to) {
            assert(Seq::<u8>::empty() + rest =~= rest);
        }
    } else {
        lemma_skip_nonzero(ebsp, from + 1, to);
        if from + 2 >= ebsp.len() {
            assert(ebsp.skip(from) =~= ebsp.subrange(from, to) + ebsp.skip(to));
            if to + 2 < ebsp.len() {
                assert(false);
            }
        } else {
            if let Ok(rest) = unescaped(ebsp, to) {
                assert(seq![ebsp[from]] + (ebsp.subrange(from + 1, to) + rest) =~= ebsp.subrange(
                    from,
                    to,
                ) + rest);
            }
        }
    }
}

/// One byte that no escape begins at is copied.
proof fn lemma_copy_one(ebsp: Seq<u8>, from: int)
    requires
        0 <= from < ebsp.len(),
        !(from + 2 < ebsp.len() && ebsp[from] == 0 && ebsp[from + 1] == 0 && ebsp[from + 2] <= 3),
    ensures
        unescaped(ebsp, from) == prepend(seq![ebsp[from]], unescaped(ebsp, from + 1)),
{
    if from + 2 >= ebsp.len() {
        assert(ebsp.skip(from) =~= seq![ebsp[from]] + ebsp.skip(from + 1));
    }
}

/// Prefixes add up.
proof fn lemma_prepend_twice(first: Seq<u8>, second: Seq<u8>, rest: Result<Seq<u8>>)
    ensures
        prepend(first, prepend(second, rest)) == prepend(first + second, rest),
{
    if let Ok(bytes) = rest {
        assert(first + (second + bytes) =~= first + second + bytes);
    }
}

/// After `done` came out of `ebsp[..copy_from]`, the bytes up to `search_from`
/// are copied and the rest is decoded.
#[verifier::opaque]
spec fn scanned(ebsp: Seq<u8>, done: Seq<u8>, copy_from: int, search_from: int) -> bool {
    unescaped(ebsp, 0) == prepend(
        done + ebsp.subrange(copy_from, search_from),
        unescaped(ebsp, search_from),
    )
}

proof fn lemma_scan_start(ebsp: Seq<u8>)
    ensures
        scanned(ebsp, Seq::empty(), 0, 0),
{
    reveal(scanned);
    assert(Seq::<u8>::empty() + ebsp.subrange(0, 0) =~= Seq::<u8>::empty());
    if let Ok(rest) = unescaped(ebsp, 0) {
        assert(Seq::<u8>::empty() + rest =~= rest);
    }
}

/// Bytes that no escape begins at are scanned.
proof fn lemma_scan_copied(
    ebsp: Seq<u8>,
    done: Seq<u8>,
    copy_from: int,
    search_from: int,
    middle: Seq<u8>,
)
    requires
        0 <= copy_from <= search_from,
        search_from + middle.len() <= ebsp.len(),
        middle == ebsp.subrange(search_from, search_from + middle.len()),
        scanned(ebsp, done, copy_from, search_from),
        unescaped(ebsp, search_from) == prepend(
            middle,
            unescaped(ebsp, search_from + middle.len()),
        ),
    ensures
        scanned(ebsp, done, copy_from, search_from + middle.len()),
{
    reveal(scanned);
    let before = done + ebsp.subrange(copy_from, search_from);
    lemma_prepend_twice(before, middle, unescaped(ebsp, search_from + middle.len()));
    assert(before + middle =~= done + ebsp.subrange(copy_from, search_from + middle.len()));
}

/// A zero byte without a second one after it, or a pair of them with a larger
/// byte after it, is scanned.
proof fn lemma_scan_zeros(ebsp: Seq<u8>, done: Seq<u8>, copy_from: int, at: int, count: int)
    requires
        0 <= copy_from <= at,
        1 <= count <= 2,
        at + count <= ebsp.len(),
        ebsp[at] == 0,
        count == 1 ==> at + 1 >= ebsp.len() || ebsp[at + 1] != 0,
        count == 2 ==> at + 2 < ebsp.len() && ebsp[at + 1] == 0 && ebsp[at + 2] > 3,
        scanned(ebsp, done, copy_from, at),
    ensures
        scanned(ebsp, done, copy_from, at + count),
{
    lemma_copy_one(ebsp, at);
    if count == 2 {
        lemma_copy_one(ebsp, at + 1);
        lemma_prepend_twice(seq![0u8], seq![0u8], unescaped(ebsp, at + 2));
        assert(seq![0u8] + seq![0u8] =~= ebsp.subrange(at, at + 2));
        lemma_scan_copied(ebsp, done, copy_from, at, ebsp.subrange(at, at + 2));
    } else {
        assert(seq![0u8] =~= ebsp.subrange(at, at + 1));
        lemma_scan_copied(ebsp, done, copy_from, at, ebsp.subrange(at, at + 1));
    }
}

/// An escape is scanned: its zeros are kept and its third byte is not.
proof fn lemma_scan_escape(ebsp: Seq<u8>, done: Seq<u8>, copy_from: int, at: int)
    requires
        0 <= copy_from <= at,
        at + 3 < ebsp.len(),
        ebsp[at] == 0,
        ebsp[at + 1] == 0,
        ebsp[at + 2] == 3,
        ebsp[at + 3] <= 3,
        scanned(ebsp, done, copy_from, at),
    ensures
        scanned(ebsp, done + ebsp.subrange(copy_from, at + 2), at + 3, at + 3),
{
    reveal(scanned);
    let before = done + ebsp.subrange(copy_from, at);
    lemma_prepend_twice(before, seq![0u8, 0u8], unescaped(ebsp, at + 3));
    let kept = done + ebsp.subrange(copy_from, at + 2);
    assert(before + seq![0u8, 0u8] =~= kept);
    assert(kept + ebsp.subrange(at + 3, at + 3) =~= kept);
}

/// When no escape begins at or after `search_from`, the rest is copied.
proof fn lemma_scan_end(ebsp: Seq<u8>, done: Seq<u8>, copy_from: int, search_from: int)
    requires
        0 <= copy_from <= search_from <= ebsp.len(),
        scanned(ebsp, done, copy_from, search_from),
        search_from + 2 >= ebsp.len() || (forall|i: int|
            search_from <= i < ebsp.len() ==> ebsp[i] != 0),
    ensures
        unescaped(ebsp, 0) == Ok::<Seq<u8>, H264Error>(done + ebsp.skip(copy_from)),
{
    reveal(scanned);
    if search_from + 2 < ebsp.len() {
        lemma_skip_nonzero(ebsp, search_from, ebsp.len() as int);
        assert(ebsp.subrange(search_from, ebsp.len() as int) + ebsp.skip(ebsp.len() as int)
            =~= ebsp.skip(search_from));
    }
    assert(done + ebsp.subrange(copy_from, search_from) + ebsp.skip(search_from) =~= done
        + ebsp.skip(copy_from));
}

/// A broken escape at `at` makes the payload invalid.
proof fn lemma_scan_invalid(ebsp: Seq<u8>, done: Seq<u8>, copy_from: int, at: int)
    requires
        at + 2 < ebsp.len(),
        ebsp[at] == 0,
        ebsp[at + 1] == 0,
        ebsp[at + 2] < 3 || ebsp[at + 2] == 3 && (at + 3 >= ebsp.len() || ebsp[at + 3] > 3),
        scanned(ebsp, done, copy_from, at),
    ensures
        unescaped(ebsp, 0) == Err::<Seq<u8>, H264Error>(H264Error::InvalidRbspEscape),
{
    reveal(scanned);
}

/// Removes H.264 emulation-prevention bytes from an EBSP payload.
///
/// The input is returned as a borrowed slice when it contains no escape bytes.
/// An allocation is made only when at least one `00 00 03 xx` sequence must be
/// transformed.
pub fn decode_rbsp(ebsp: &[u8]) -> (result: Result<Cow<'_, [u8]>>)
    ensures
        match result {
            Ok(payload) => unescaped(ebsp@, 0) == Ok::<Seq<u8>, H264Error>(payload_bytes(payload))
                && (payload is Borrowed <==> payload_bytes(payload).len() == ebsp@.len()),
            Err(error) => unescaped(ebsp@, 0) == Err::<Seq<u8>, H264Error>(error),
        },
{
    let mut output: Option<Vec<u8>> = None;
    let mut search_from: usize = 0;
    let mut copy_from: usize = 0;
    let ghost mut done: Seq<u8> = Seq::empty();
    let length: usize = ebsp.len();
    proof {
        lemma_scan_start(ebsp@);
    }
    loop
        invariant
            length == ebsp@.len(),
            copy_from <= search_from <= length,
            match output {
                Some(bytes) => bytes@ == done && done.len() < copy_from,
                None => copy_from == 0 && done.len() == 0,
            },
            scanned(ebsp@, done, copy_from as int, search_from as int),
        ensures
            search_from + 2 >= length || (forall|i: int|
                search_from <= i < length ==> ebsp@[i] != 0),
        decreases length - search_from,
    {
        let rest = &ebsp[search_from..length];
        assert(forall|i: int| search_from <= i < length ==> ebsp@[i] == rest@[i - search_from]);
        let first_zero: usize = match find_byte(0, rest) {
            Some(relative) => search_from + relative,
            None => {
                break;
            },
        };
        proof {
            lemma_skip_nonzero(ebsp@, search_from as int, first_zero as int);
            lemma_scan_copied(
                ebsp@,
                done,
                copy_from as int,
                search_from as int,
                ebsp@.subrange(search_from as int, first_zero as int),
            );
        }
        if first_zero + 1 >= length || ebsp[first_zero + 1] != 0 {
            proof {
                lemma_scan_zeros(ebsp@, done, copy_from as int, first_zero as int, 1);
            }
            search_from = first_zero + 1;
            continue;
        }
        if first_zero + 2 >= length {
            search_from = first_zero;
            break;
        }
        let following: u8 = ebsp[first_zero + 2];
        if following > 3 {
            proof {
                lemma_scan_zeros(ebsp@, done, copy_from as int, first_zero as int, 2);
            }
            search_from = first_zero + 2;
            continue;
        }
        if following < 3 || first_zero + 3 >= length || ebsp[first_zero + 3] > 3 {
            proof {
                lemma_scan_invalid(ebsp@, done, copy_from as int, first_zero as int);
            }
            return Err(H264Error::InvalidRbspEscape);
        }
        let mut decoded: Vec<u8> = match output {
            Some(bytes) => bytes,
            None => Vec::with_capacity(length - 1),
        };
        decoded.extend_from_slice(&ebsp[copy_from..first_zero + 2]);
        proof {
            lemma_scan_escape(ebsp@, done, copy_from as int, first_zero as int);
            done = done + ebsp@.subrange(copy_from as int, first_zero + 2);
            assert(decoded@ =~= done);
        }
        output = Some(decoded);
        copy_from = first_zero + 3;
        search_from = copy_from;
    }
    proof {
        lemma_scan_end(ebsp@, done, copy_from as int, search_from as int);
    }
    match output {
        Some(bytes) => {
            let mut bytes = bytes;
            bytes.extend_from_slice(&ebsp[copy_from..length]);
            assert(bytes@ =~= done + ebsp@.skip(copy_from as int));
            Ok(Cow::Owned(bytes))
        },
        None => {
            assert(done + ebsp@.skip(0) =~= ebsp@);
            Ok(Cow::Borrowed(ebsp))
        },
    }
}

/// Whether the data from `position` on holds a one bit.
pub open spec fn has_one_bit(data: Seq<u8>, position: int) -> bool {
    exists|i: int| position <= i < 8 * data.len() && #[trigger] bit_at(data, i)
}

/// Reads `rbsp_trailing_bits()`: a one bit, then nothing but zero bits.
pub open spec fn trailing_bits(cursor: Cursor) -> ((), Cursor) {
    let (stop, next) = cursor.flag();
    let next = next.require(
        stop && !has_one_bit(next.data, next.position),
        H264Error::InvalidTrailingBits,
    );
    if next.error is Some {
        ((), next)
    } else {
        ((), Cursor { position: 8 * next.data.len() as int, ..next })
    }
}

/// Consumes and validates `rbsp_trailing_bits()`.
///
/// The caller invokes this after parsing the final syntax element in an RBSP.
/// A valid tail is one stop bit followed only by zero alignment bits.
pub fn consume_rbsp_trailing_bits(reader: &mut BitReader<'_>) -> (result: Result<()>)
    ensures
        super::bits::follows(result, *final(reader), trailing_bits(old(reader).cursor())),
        final(reader).data() == old(reader).data(),
{
    if !reader.read_bit()? {
        return Err(H264Error::InvalidTrailingBits);
    }
    let ghost start = reader.position();
    while !reader.is_at_end()
        invariant
            reader.data() == old(reader).data(),
            start <= reader.position(),
            start == old(reader).cursor().flag().1.position,
            old(reader).cursor().flag().0,
            old(reader).cursor().flag().1.error is None,
            old(reader).cursor().flag().1.data == reader.data(),
            forall|i: int|
                start <= i < reader.position() ==> !#[trigger] bit_at(reader.data(), i),
        decreases 8 * reader.data().len() - reader.position(),
    {
        let ghost here = reader.position();
        if reader.read_bit()? {
            assert(bit_at(reader.data(), here));
            return Err(H264Error::InvalidTrailingBits);
        }
    }
    Ok(())
}

/// Whether syntax data comes before `rbsp_trailing_bits()`: there is a bit
/// left, and it is not the last one bit.
pub open spec fn more_data(cursor: Cursor) -> bool {
    cursor.position < 8 * cursor.data.len() && (bit_at(cursor.data, cursor.position)
        ==> has_one_bit(cursor.data, cursor.position + 1))
}

/// Returns whether syntax data remains before `rbsp_trailing_bits()`.
///
/// The reader is not advanced. A malformed or missing tail is left for
/// [`consume_rbsp_trailing_bits`] to diagnose after the caller finishes
/// parsing its optional syntax.
pub fn more_rbsp_data(reader: &BitReader<'_>) -> (more: bool)
    ensures
        more == more_data(reader.cursor()),
{
    let mut probe = *reader;
    match probe.read_bit() {
        Err(_) => false,
        Ok(false) => true,
        Ok(true) => {
            let ghost start = probe.position();
            while !probe.is_at_end()
                invariant
                    probe.data() == reader.data(),
                    start == reader.position() + 1,
                    start <= probe.position(),
                    start <= 8 * reader.data().len(),
                    bit_at(reader.data(), reader.position()),
                    forall|i: int|
                        start <= i < probe.position() ==> !#[trigger] bit_at(reader.data(), i),
                decreases 8 * probe.data().len() - probe.position(),
            {
                let ghost here = probe.position();
                match probe.read_bit() {
                    Ok(bit) => {
                        if bit {
                            assert(bit_at(reader.data(), here));
                            return true;
                        }
                    },
                    Err(_) => {
                        assert(false);
                    },
                }
            }
            false
        },
    }
}

/// Bytes in which two zeros are never followed by a byte up to `03` are their
/// own payload.
pub proof fn law_plain_payload_is_kept(ebsp: Seq<u8>)
    requires
        forall|i: int|
            0 <= i < ebsp.len() - 2 && #[trigger] ebsp[i] == 0 && ebsp[i + 1] == 0 ==> ebsp[i + 2]
                > 3,
    ensures
        unescaped(ebsp, 0) == Ok::<Seq<u8>, H264Error>(ebsp),
{
    lemma_plain_from(ebsp, 0);
    assert(ebsp.skip(0) =~= ebsp);
}

proof fn lemma_plain_from(ebsp: Seq<u8>, from: int)
    requires
        0 <= from <= ebsp.len(),
        forall|i: int|
            0 <= i < ebsp.len() - 2 && #[trigger] ebsp[i] == 0 && ebsp[i + 1] == 0 ==> ebsp[i + 2]
                > 3,
    ensures
        unescaped(ebsp, from) == Ok::<Seq<u8>, H264Error>(ebsp.skip(from)),
    decreases ebsp.len() - from,
{
    if from + 2 < ebsp.len() {
        lemma_plain_from(ebsp, from + 1);
        assert(seq![ebsp[from]] + ebsp.skip(from + 1) =~= ebsp.skip(from));
    }
}

/// The bytes that stand for a payload from `from` on, behind `zeros` zero bytes:
/// a `03` parts two zeros from a byte up to `03`.
pub open spec fn escaped(payload: Seq<u8>, from: int, zeros: int) -> Seq<u8>
    decreases payload.len() - from,
{
    if from >= payload.len() {
        Seq::empty()
    } else {
        let byte = payload[from];
        if zeros == 2 && byte <= 3 {
            seq![3u8, byte] + escaped(
                payload,
                from + 1,
                if byte == 0 {
                    1
                } else {
                    0
                },
            )
        } else {
            seq![byte] + escaped(
                payload,
                from + 1,
                if byte == 0 {
                    zeros + 1
                } else {
                    0
                },
            )
        }
    }
}

/// Zero bytes.
spec fn zero_bytes(count: int) -> Seq<u8> {
    Seq::new(count as nat, |i: int| 0u8)
}

/// What the bytes stand for does not depend on those before them.
proof fn lemma_unescaped_suffix(ebsp: Seq<u8>, start: int, from: int)
    requires
        0 <= start <= from <= ebsp.len(),
    ensures
        unescaped(ebsp, from) == unescaped(ebsp.skip(start), from - start),
    decreases ebsp.len() - from,
{
    let rest = ebsp.skip(start);
    if from + 2 >= ebsp.len() {
        assert(rest.skip(from - start) =~= ebsp.skip(from));
    } else {
        lemma_unescaped_suffix(ebsp, start, from + 1);
        if from + 3 <= ebsp.len() {
            lemma_unescaped_suffix(ebsp, start, from + 3);
        }
    }
}

/// A byte that does not start an escape stands for itself.
proof fn lemma_own_byte(ebsp: Seq<u8>)
    requires
        ebsp.len() > 0,
        ebsp[0] != 0 || ebsp.len() < 2 || ebsp[1] != 0 || ebsp.len() < 3 || ebsp[2] > 3,
    ensures
        unescaped(ebsp, 0) == prepend(seq![ebsp[0]], unescaped(ebsp.skip(1), 0)),
{
    let rest = ebsp.skip(1);
    if ebsp.len() <= 2 {
        assert(ebsp.skip(0) =~= ebsp);
        assert(rest.skip(0) =~= rest);
        assert(seq![ebsp[0]] + rest =~= ebsp);
    } else {
        lemma_unescaped_suffix(ebsp, 1, 1);
    }
}

/// Zeros and another byte stand for themselves where no escape starts.
proof fn lemma_own_bytes(zeros: int, byte: u8, behind: Seq<u8>, meant: Seq<u8>)
    requires
        0 <= zeros <= 2,
        byte != 0,
        zeros == 2 ==> byte > 3,
        unescaped(behind, 0) == Ok::<Seq<u8>, H264Error>(meant),
    ensures
        unescaped(zero_bytes(zeros) + (seq![byte] + behind), 0) == Ok::<Seq<u8>, H264Error>(
            zero_bytes(zeros) + (seq![byte] + meant),
        ),
    decreases zeros,
{
    let whole = zero_bytes(zeros) + (seq![byte] + behind);
    lemma_own_byte(whole);
    if zeros == 0 {
        assert(whole.skip(1) =~= behind);
        assert(seq![byte] + meant =~= zero_bytes(0) + (seq![byte] + meant));
    } else {
        lemma_own_bytes(zeros - 1, byte, behind, meant);
        assert(whole.skip(1) =~= zero_bytes(zeros - 1) + (seq![byte] + behind));
        assert(seq![0u8] + (zero_bytes(zeros - 1) + (seq![byte] + meant)) =~= zero_bytes(zeros) + (
        seq![byte] + meant));
    }
}

/// Two zeros and a parted byte stand for the zeros and what follows them.
proof fn lemma_parted_bytes(tail: Seq<u8>, meant: Seq<u8>)
    requires
        tail.len() > 0,
        tail[0] <= 3,
        unescaped(tail, 0) == Ok::<Seq<u8>, H264Error>(meant),
    ensures
        unescaped(seq![0u8, 0u8, 3u8] + tail, 0) == Ok::<Seq<u8>, H264Error>(
            seq![0u8, 0u8] + meant,
        ),
{
    let whole = seq![0u8, 0u8, 3u8] + tail;
    assert(whole.skip(3) =~= tail);
    lemma_unescaped_suffix(whole, 3, 3);
    assert(whole[3] == tail[0]);
}

proof fn lemma_escaped_from(payload: Seq<u8>, from: int, zeros: int)
    requires
        0 <= from <= payload.len(),
        0 <= zeros <= 2,
    ensures
        unescaped(zero_bytes(zeros) + escaped(payload, from, zeros), 0) == Ok::<
            Seq<u8>,
            H264Error,
        >(zero_bytes(zeros) + payload.skip(from)),
    decreases payload.len() - from,
{
    let whole = zero_bytes(zeros) + escaped(payload, from, zeros);
    if from == payload.len() {
        assert(whole.skip(0) =~= zero_bytes(zeros) + payload.skip(from));
    } else {
        let byte = payload[from];
        let meant = payload.skip(from + 1);
        assert(payload.skip(from) =~= seq![byte] + meant);
        if byte == 0 && zeros < 2 {
            lemma_escaped_from(payload, from + 1, zeros + 1);
            assert(whole =~= zero_bytes(zeros + 1) + escaped(payload, from + 1, zeros + 1));
            assert(zero_bytes(zeros + 1) + meant =~= zero_bytes(zeros) + (seq![byte] + meant));
        } else if byte == 0 {
            let behind = escaped(payload, from + 1, 1);
            lemma_escaped_from(payload, from + 1, 1);
            lemma_parted_bytes(zero_bytes(1) + behind, zero_bytes(1) + meant);
            assert(whole =~= seq![0u8, 0u8, 3u8] + (zero_bytes(1) + behind));
            assert(seq![0u8, 0u8] + (zero_bytes(1) + meant) =~= zero_bytes(2) + (seq![byte] + meant));
        } else {
            let behind = escaped(payload, from + 1, 0);
            lemma_escaped_from(payload, from + 1, 0);
            assert(zero_bytes(0) + behind =~= behind);
            assert(zero_bytes(0) + meant =~= meant);
            if zeros == 2 && byte <= 3 {
                lemma_own_bytes(0, byte, behind, meant);
                let tail = seq![byte] + behind;
                assert(zero_bytes(0) + tail =~= tail);
                assert(zero_bytes(0) + (seq![byte] + meant) =~= seq![byte] + meant);
                lemma_parted_bytes(tail, seq![byte] + meant);
                assert(whole =~= seq![0u8, 0u8, 3u8] + tail);
                assert(seq![0u8, 0u8] + (seq![byte] + meant) =~= zero_bytes(2) + (seq![byte] + meant));
            } else {
                lemma_own_bytes(zeros, byte, behind, meant);
            }
        }
    }
}

/// Whatever a payload holds, it is read back from the bytes that stand for it.
pub proof fn law_escaped_payload_is_read_back(payload: Seq<u8>)
    ensures
        unescaped(escaped(payload, 0, 0), 0) == Ok::<Seq<u8>, H264Error>(payload),
{
    lemma_escaped_from(payload, 0, 0);
    assert(zero_bytes(0) + escaped(payload, 0, 0) =~= escaped(payload, 0, 0));
    assert(zero_bytes(0) + payload.skip(0) =~= payload);
}

} // verus!
