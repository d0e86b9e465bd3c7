//! A whole scan, as the transport and the wrapper play it out between them,
//! and what the client can rely on at its end.
//!
//! The transport is taken at its word: a one-byte receive puts the next byte
//! of the line at position 0 of the buffer and touches nothing else.

use vstd::prelude::*;
use crate::completion::Completion;
use crate::progress::Progress;

verus! {

/// One completion of a one-byte receive: the byte that arrived and the
/// status that the transport reported with it.
pub struct Arrival<E> {
    pub byte: u8,
    pub error: E,
}

/// What a run of completions has come to.
pub struct Scan<E> {
    /// The progress saved after the last completion taken.
    pub progress: Progress,
    /// The buffer after the last completion taken.
    pub buffer: Seq<u8>,
    /// What the client was told, if the run got that far.
    pub report: Option<Completion<E>>,
    /// How many completions were taken: one per receive issued.
    pub consumed: nat,
}

/// The buffer as the transport hands it back after a one-byte receive.
pub open spec fn arrive(buf: Seq<u8>, byte: u8) -> Seq<u8> {
    if buf.len() > 0 {
        buf.update(0, byte)
    } else {
        buf
    }
}

/// Plays `arrivals` to a wrapper that has saved `progress` and whose buffer
/// is `buf` at the transport: each completion is taken in turn, until the
/// client is told or the arrivals run out.
pub open spec fn scan<E>(progress: Progress, buf: Seq<u8>, arrivals: Seq<Arrival<E>>) -> Scan<E>
    decreases arrivals.len(),
{
    if arrivals.len() == 0 {
        Scan { progress, buffer: buf, report: None, consumed: 0 }
    } else {
        let got = arrive(buf, arrivals[0].byte);
        let completion = progress.completion(got, 1, arrivals[0].error);
        if completion.reported() {
            Scan {
                progress: progress.next(got),
                buffer: progress.settle(got),
                report: Some(completion),
                consumed: 1,
            }
        } else {
            let rest = scan(progress.next(got), progress.settle(got), arrivals.drop_first());
            Scan { consumed: rest.consumed + 1, ..rest }
        }
    }
}

/// A scan that is `index` bytes in, with `first_byte` kept aside, and that
/// meets the terminator `ahead` bytes later, within the buffer: the client
/// gets all bytes up to and with the terminator, each at its position, and
/// the rest of the buffer as it was.
proof fn lemma_resumed_scan_finds<E>(
    index: usize,
    terminator: u8,
    first_byte: u8,
    buf: Seq<u8>,
    arrivals: Seq<Arrival<E>>,
    ahead: int,
)
    requires
        buf.len() <= usize::MAX,
        0 <= ahead < arrivals.len(),
        index + ahead < buf.len(),
        arrivals[ahead].byte == terminator,
        forall|j: int| 0 <= j < ahead ==> arrivals[j].byte != terminator,
    ensures
        ({
            let s = scan(Progress::Seeking { index, terminator, first_byte }, buf, arrivals);
            &&& s.report == Some(
                Completion::Deliver {
                    length: (index + ahead + 1) as usize,
                    error: arrivals[ahead].error,
                },
            )
            &&& s.progress == Progress::Normal
            &&& s.consumed == ahead + 1
            &&& s.buffer.len() == buf.len()
            &&& s.buffer[0] == if index == 0 {
                arrivals[0].byte
            } else {
                first_byte
            }
            &&& forall|i: int| 1 <= i < index ==> s.buffer[i] == buf[i]
            &&& forall|i: int|
                1 <= i && index <= i <= index + ahead ==> s.buffer[i] == arrivals[i - index].byte
            &&& forall|i: int| index + ahead < i < buf.len() ==> s.buffer[i] == buf[i]
        }),
    decreases ahead,
{
    if ahead > 0 {
        let progress = Progress::Seeking { index, terminator, first_byte };
        let got = arrive(buf, arrivals[0].byte);
        let kept: u8 = if index == 0 {
            arrivals[0].byte
        } else {
            first_byte
        };
        let resumed = Progress::Seeking { index: (index + 1) as usize, terminator, first_byte: kept };
        let rest = arrivals.drop_first();
        assert(progress.next(got) == resumed);
        assert forall|j: int| 0 <= j < ahead - 1 implies rest[j].byte != terminator by {}
        lemma_resumed_scan_finds((index + 1) as usize, terminator, kept, progress.settle(got), rest,
            ahead - 1);
        let s = scan(progress, buf, arrivals);
        let r = scan(resumed, progress.settle(got), rest);
        assert forall|i: int| 1 <= i < index implies s.buffer[i] == buf[i] by {
            assert(progress.settle(got)[i] == buf[i]);
        }
        assert forall|i: int| index + ahead < i < buf.len() implies s.buffer[i] == buf[i] by {
            assert(progress.settle(got)[i] == buf[i]);
        }
        assert forall|i: int| 1 <= i && index <= i <= index + ahead implies s.buffer[i]
            == arrivals[i - index].byte by {
            if i == index {
                assert(r.buffer[i] == progress.settle(got)[i]);
            }
        }
    }
}

/// A scan that is `index` bytes in, with `first_byte` kept aside, and that
/// does not meet the terminator in the places that the buffer has left: it
/// ends when the last place is taken, and the client gets the full buffer.
proof fn lemma_resumed_scan_fills<E>(
    index: usize,
    terminator: u8,
    first_byte: u8,
    buf: Seq<u8>,
    arrivals: Seq<Arrival<E>>,
)
    requires
        buf.len() <= usize::MAX,
        index < buf.len(),
        buf.len() - index <= arrivals.len(),
        forall|j: int| 0 <= j < buf.len() - index ==> arrivals[j].byte != terminator,
    ensures
        ({
            let s = scan(Progress::Seeking { index, terminator, first_byte }, buf, arrivals);
            &&& s.report == Some(
                Completion::CapacityExceeded {
                    length: buf.len() as usize,
                    error: arrivals[buf.len() - index - 1].error,
                },
            )
            &&& s.progress == Progress::Normal
            &&& s.consumed == buf.len() - index
            &&& s.buffer.len() == buf.len()
            &&& s.buffer[0] == if index == 0 {
                arrivals[0].byte
            } else {
                first_byte
            }
            &&& forall|i: int| 1 <= i < index ==> s.buffer[i] == buf[i]
            &&& forall|i: int|
                1 <= i && index <= i < buf.len() ==> s.buffer[i] == arrivals[i - index].byte
        }),
    decreases buf.len() - index,
{
    if index + 1 < buf.len() {
        let progress = Progress::Seeking { index, terminator, first_byte };
        let got = arrive(buf, arrivals[0].byte);
        let kept: u8 = if index == 0 {
            arrivals[0].byte
        } else {
            first_byte
        };
        let resumed = Progress::Seeking { index: (index + 1) as usize, terminator, first_byte: kept };
        let rest = arrivals.drop_first();
        assert(progress.next(got) == resumed);
        assert forall|j: int| 0 <= j < buf.len() - (index + 1) implies rest[j].byte
            != terminator by {}
        lemma_resumed_scan_fills((index + 1) as usize, terminator, kept, progress.settle(got), rest);
        let s = scan(progress, buf, arrivals);
        let r = scan(resumed, progress.settle(got), rest);
        assert forall|i: int| 1 <= i < index implies s.buffer[i] == buf[i] by {
            assert(progress.settle(got)[i] == buf[i]);
        }
        assert forall|i: int| 1 <= i && index <= i < buf.len() implies s.buffer[i] == arrivals[i
            - index].byte by {
            if i == index {
                assert(r.buffer[i] == progress.settle(got)[i]);
            }
        }
    }
}

/// Where the line brings the terminator as its byte `k`, counted from 0 and
/// within the buffer's capacity, and not before, a new scan tells the client
/// of `k + 1` bytes with the status of the last completion. Positions 0 to
/// `k` of the buffer hold the bytes of the line in their order, the
/// terminator last, and the positions after them are as they were.
pub proof fn lemma_terminator_found<E>(
    terminator: u8,
    buf: Seq<u8>,
    arrivals: Seq<Arrival<E>>,
    k: int,
)
    requires
        1 <= buf.len() <= usize::MAX,
        0 <= k < buf.len(),
        k < arrivals.len(),
        arrivals[k].byte == terminator,
        forall|j: int| 0 <= j < k ==> arrivals[j].byte != terminator,
    ensures
        ({
            let s = scan(Progress::start(terminator), buf, arrivals);
            &&& s.report == Some(
                Completion::Deliver { length: (k + 1) as usize, error: arrivals[k].error },
            )
            &&& s.progress == Progress::Normal
            &&& s.consumed == k + 1
            &&& s.buffer.len() == buf.len()
            &&& forall|i: int| 0 <= i <= k ==> s.buffer[i] == arrivals[i].byte
            &&& forall|i: int| k < i < buf.len() ==> s.buffer[i] == buf[i]
        }),
{
    lemma_resumed_scan_finds(0, terminator, 0, buf, arrivals, k);
}

/// Where the terminator is not among the first bytes of the line, as many as
/// the buffer holds, a new scan ends with the byte that fills the buffer:
/// the client is told that the capacity is exceeded, with the buffer's
/// length and the status of that last completion, and the buffer holds those
/// bytes in their order. No further receive is issued.
pub proof fn lemma_capacity_exceeded<E>(terminator: u8, buf: Seq<u8>, arrivals: Seq<Arrival<E>>)
    requires
        1 <= buf.len() <= usize::MAX,
        buf.len() <= arrivals.len(),
        forall|j: int| 0 <= j < buf.len() ==> arrivals[j].byte != terminator,
    ensures
        ({
            let s = scan(Progress::start(terminator), buf, arrivals);
            &&& s.report == Some(
                Completion::CapacityExceeded {
                    length: buf.len() as usize,
                    error: arrivals[buf.len() - 1].error,
                },
            )
            &&& s.progress == Progress::Normal
            &&& s.consumed == buf.len()
            &&& s.buffer.len() == buf.len()
            &&& forall|i: int| 0 <= i < buf.len() ==> s.buffer[i] == arrivals[i].byte
        }),
{
    lemma_resumed_scan_fills(0, terminator, 0, buf, arrivals);
}

/// With no scan in progress a completion reaches the client as the transport
/// reported it: the same buffer, the same length, the same status, and the
/// wrapper stays as it was.
pub proof fn lemma_plain_receive_passes_through<E>(buf: Seq<u8>, rx_len: usize, error: E)
    ensures
        Progress::Normal.completion(buf, rx_len, error) == (Completion::Deliver {
            length: rx_len,
            error,
        }),
        Progress::Normal.settle(buf) == buf,
        Progress::Normal.next(buf) == Progress::Normal,
{
}

/// A new scan whose first byte is the terminator tells the client of one
/// byte, the terminator at position 0, after a single receive.
pub proof fn lemma_terminator_first<E>(terminator: u8, buf: Seq<u8>, arrivals: Seq<Arrival<E>>)
    requires
        1 <= buf.len(),
        1 <= arrivals.len(),
        arrivals[0].byte == terminator,
    ensures
        ({
            let s = scan(Progress::start(terminator), buf, arrivals);
            &&& s.report == Some(Completion::Deliver { length: 1, error: arrivals[0].error })
            &&& s.buffer == buf.update(0, terminator)
            &&& s.progress == Progress::Normal
            &&& s.consumed == 1
        }),
{
}

/// Once the client has been told, no scan is in progress, whatever state the
/// run began in and whatever arrived. Until the client is told, every
/// arrival is taken.
pub proof fn lemma_reported_scan_resets<E>(
    progress: Progress,
    buf: Seq<u8>,
    arrivals: Seq<Arrival<E>>,
)
    ensures
        scan(progress, buf, arrivals).report is Some ==> scan(progress, buf, arrivals).progress
            == Progress::Normal,
        scan(progress, buf, arrivals).report is None ==> scan(progress, buf, arrivals).consumed
            == arrivals.len(),
    decreases arrivals.len(),
{
    if arrivals.len() > 0 {
        let got = arrive(buf, arrivals[0].byte);
        let completion = progress.completion(got, 1, arrivals[0].error);
        if !completion.reported() {
            lemma_reported_scan_resets(progress.next(got), progress.settle(got),
                arrivals.drop_first());
        }
    }
}

} // verus!
