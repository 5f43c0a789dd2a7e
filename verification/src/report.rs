//! PID records in terminal output.
//!
//! A shell that runs inside a terminal reports a process by printing a marker,
//! the PID in decimal digits, and something that is not a digit. Terminal
//! output arrives in pieces, so a record counts only once the byte behind its
//! digits is there: before that, the rest of the number may still be to come.

use vstd::prelude::*;

verus! {

/// Whether `byte` is an ASCII decimal digit.
pub open spec fn is_digit(byte: u8) -> bool {
    48 <= byte <= 57
}

/// The number that a run of ASCII digits denotes in decimal notation.
pub open spec fn number(digits: Seq<u8>) -> nat
    decreases digits.len(),
{
    if digits.len() == 0 {
        0
    } else {
        (10 * number(digits.drop_last()) + (digits.last() - 48)) as nat
    }
}

/// Where the run of digits that starts at `start` ends: the first index from
/// `start` on that holds no digit, or the end of `output`.
pub open spec fn digits_end(output: Seq<u8>, start: int) -> int
    decreases output.len() - start,
{
    if 0 <= start < output.len() && is_digit(output[start]) {
        digits_end(output, start + 1)
    } else {
        start
    }
}

/// Whether `marker` stands in `output` at `offset`.
pub open spec fn occurs_at(output: Seq<u8>, marker: Seq<u8>, offset: int) -> bool {
    &&& 0 <= offset
    &&& offset + marker.len() <= output.len()
    &&& output.subrange(offset, offset + marker.len()) == marker
}

/// The PID of the record at `offset`: the marker, at least one digit, a byte
/// that is no digit, and a number that an `i32` can hold.
pub open spec fn record_at(output: Seq<u8>, marker: Seq<u8>, offset: int) -> Option<i32> {
    let start = offset + marker.len();
    let end = digits_end(output, start);
    if occurs_at(output, marker, offset) && start < end < output.len() && number(
        output.subrange(start, end),
    ) <= i32::MAX {
        Some(number(output.subrange(start, end)) as i32)
    } else {
        None
    }
}

/// The PID of the first record at or behind `offset`.
pub open spec fn first_record(output: Seq<u8>, marker: Seq<u8>, offset: int) -> Option<i32>
    decreases output.len() + 1 - offset,
{
    if offset + marker.len() > output.len() {
        None
    } else if record_at(output, marker, offset) is Some {
        record_at(output, marker, offset)
    } else {
        first_record(output, marker, offset + 1)
    }
}

/// The PID that `output` reports: that of its first record.
pub open spec fn reported_pid(output: Seq<u8>, marker: Seq<u8>) -> Option<i32> {
    first_record(output, marker, 0)
}

/// Whether the bytes of `output` from `offset` on are the marker, then one or
/// more of the bytes `0` to `9` that denote `pid`, up to a byte at `end` that is
/// none of these.
pub open spec fn spells_record(
    output: Seq<u8>,
    marker: Seq<u8>,
    offset: int,
    end: int,
    pid: int,
) -> bool {
    let start = offset + marker.len();
    &&& 0 <= offset
    &&& start < end < output.len()
    &&& forall|k: int| 0 <= k < marker.len() ==> output[offset + k] == #[trigger] marker[k]
    &&& forall|k: int| start <= k < end ==> 0x30 <= #[trigger] output[k] <= 0x39
    &&& !(0x30 <= output[end] <= 0x39)
    &&& pid == crate::decimal::digits_value(
        Seq::new((end - start) as nat, |k: int| output[start + k] - 0x30),
    )
}

/// The ASCII bytes of `pid` in decimal notation.
pub open spec fn pid_digits(pid: nat) -> Seq<u8> {
    crate::decimal::decimal_nat(pid).map_values(|c: char| c as u8)
}

proof fn lemma_digits_end_bounds(output: Seq<u8>, start: int)
    requires
        0 <= start <= output.len(),
    ensures
        start <= digits_end(output, start) <= output.len(),
        forall|i: int| start <= i < digits_end(output, start) ==> is_digit(#[trigger] output[i]),
        digits_end(output, start) < output.len() ==> !is_digit(
            output[digits_end(output, start)],
        ),
    decreases output.len() - start,
{
    if start < output.len() && is_digit(output[start]) {
        lemma_digits_end_bounds(output, start + 1);
    }
}

proof fn lemma_digits_end_unique(output: Seq<u8>, start: int, end: int)
    requires
        0 <= start <= end <= output.len(),
        forall|i: int| start <= i < end ==> is_digit(#[trigger] output[i]),
        end < output.len() ==> !is_digit(output[end]),
    ensures
        digits_end(output, start) == end,
    decreases end - start,
{
    if start < end {
        assert(is_digit(output[start]));
        lemma_digits_end_unique(output, start + 1, end);
    }
}

proof fn lemma_number_grows(digits: Seq<u8>, k: int)
    requires
        0 <= k <= digits.len(),
        forall|i: int| 0 <= i < digits.len() ==> is_digit(#[trigger] digits[i]),
    ensures
        number(digits.take(k)) <= number(digits),
    decreases digits.len() - k,
{
    if k == digits.len() {
        assert(digits.take(k) =~= digits);
    } else {
        lemma_number_grows(digits, k + 1);
        assert(digits.take(k + 1).drop_last() =~= digits.take(k));
        assert(digits.take(k + 1).last() == digits[k]);
    }
}

proof fn lemma_first_record(output: Seq<u8>, marker: Seq<u8>, offset: int)
    requires
        0 <= offset,
    ensures
        first_record(output, marker, offset) is None <==> forall|o: int|
            offset <= o ==> #[trigger] record_at(output, marker, o) is None,
        first_record(output, marker, offset) is Some ==> exists|o: int|
            #![trigger record_at(output, marker, o)]
            {
                &&& offset <= o
                &&& record_at(output, marker, o) == first_record(output, marker, offset)
                &&& forall|earlier: int|
                    offset <= earlier < o ==> #[trigger] record_at(output, marker, earlier) is None
            },
    decreases output.len() + 1 - offset,
{
    if offset + marker.len() > output.len() {
        assert forall|o: int| offset <= o implies #[trigger] record_at(output, marker, o) is None by {
            assert(!occurs_at(output, marker, o));
        }
    } else if record_at(output, marker, offset) is Some {
    } else {
        lemma_first_record(output, marker, offset + 1);
        if first_record(output, marker, offset + 1) is None {
            assert forall|o: int| offset <= o implies #[trigger] record_at(output, marker, o) is None by {
                if o > offset {
                    assert(offset + 1 <= o);
                }
            }
        } else {
            let o = choose|o: int|
                #![trigger record_at(output, marker, o)]
                {
                    &&& offset + 1 <= o
                    &&& record_at(output, marker, o) == first_record(output, marker, offset + 1)
                    &&& forall|earlier: int|
                        offset + 1 <= earlier < o ==> #[trigger] record_at(output, marker, earlier)
                            is None
                };
            assert forall|earlier: int| offset <= earlier < o implies #[trigger] record_at(
                output,
                marker,
                earlier,
            ) is None by {
                if earlier > offset {
                    assert(offset + 1 <= earlier);
                }
            }
            assert(record_at(output, marker, o) is Some);
        }
    }
}

/// Whether `marker` stands in `output` at `offset`.
fn marker_at(output: &[u8], marker: &[u8], offset: usize) -> (found: bool)
    requires
        offset + marker@.len() <= output@.len(),
    ensures
        found == occurs_at(output@, marker@, offset as int),
{
    let len: usize = output.len();
    let mut i: usize = 0;
    while i < marker.len()
        invariant
            i <= marker@.len(),
            len == output@.len(),
            offset + marker@.len() <= len,
            forall|j: int| 0 <= j < i ==> output@[offset + j] == #[trigger] marker@[j],
        decreases marker@.len() - i,
    {
        if output[offset + i] != marker[i] {
            proof {
                let window = output@.subrange(offset as int, offset + marker@.len());
                assert(window[i as int] == output@[offset + i]);
            }
            return false;
        }
        i += 1;
    }
    assert(output@.subrange(offset as int, offset + marker@.len()) =~= marker@);
    true
}

/// The PID whose digits start at `start`, once a byte that is no digit follows
/// them; `None` for no digits, no such byte, or a number beyond `i32`.
fn pid_at(output: &[u8], start: usize) -> (pid: Option<i32>)
    requires
        start <= output@.len(),
    ensures
        pid == ({
            let end = digits_end(output@, start as int);
            let digits = output@.subrange(start as int, end);
            if start < end < output@.len() && number(digits) <= i32::MAX {
                Some(number(digits) as i32)
            } else {
                None
            }
        }),
{
    let mut value: i32 = 0;
    let mut i: usize = start;
    let ghost end = digits_end(output@, start as int);
    let ghost digits = output@.subrange(start as int, end);
    proof {
        lemma_digits_end_bounds(output@, start as int);
        assert(digits.take(0) =~= Seq::<u8>::empty());
    }
    while i < output.len()
        invariant
            start <= i <= end <= output@.len(),
            end == digits_end(output@, start as int),
            digits == output@.subrange(start as int, end),
            forall|j: int| start <= j < end ==> is_digit(#[trigger] output@[j]),
            end < output@.len() ==> !is_digit(output@[end]),
            0 <= value,
            value == number(digits.take(i - start)),
        decreases output@.len() - i,
    {
        let byte: u8 = output[i];
        if byte < 48 || byte > 57 {
            proof {
                assert(i == end);
                assert(digits.take(i - start) =~= digits);
            }
            if i > start {
                return Some(value);
            }
            return None;
        }
        proof {
            assert(i < end);
            assert(digits.take(i + 1 - start).drop_last() =~= digits.take(i - start));
            assert(digits.take(i + 1 - start).last() == byte);
            assert forall|j: int| 0 <= j < digits.len() implies is_digit(#[trigger] digits[j]) by {
                assert(is_digit(output@[start + j]));
            }
            lemma_number_grows(digits, i + 1 - start);
        }
        let next: i64 = 10 * (value as i64) + ((byte - 48) as i64);
        if next > i32::MAX as i64 {
            return None;
        }
        value = next as i32;
        i += 1;
    }
    None
}

/// The PID that `output` reports behind `marker`.
///
/// The first complete record decides: an occurrence of the marker that no
/// digits follow, whose digits reach the end of `output`, or whose number an
/// `i32` cannot hold, is passed over. A marker must have at least one byte.
pub fn parse_pid(output: &[u8], marker: &str) -> (pid: Option<i32>)
    requires
        marker@.len() > 0,
    ensures
        pid == reported_pid(output@, vstd::utf8::encode_utf8(marker@)),
        pid is None <==> forall|offset: int|
            0 <= offset ==> #[trigger] record_at(
                output@,
                vstd::utf8::encode_utf8(marker@),
                offset,
            ) is None,
        pid is Some ==> exists|offset: int|
            #![trigger record_at(output@, vstd::utf8::encode_utf8(marker@), offset)]
            {
                &&& 0 <= offset
                &&& record_at(output@, vstd::utf8::encode_utf8(marker@), offset) == pid
                &&& forall|earlier: int|
                    0 <= earlier < offset ==> #[trigger] record_at(
                        output@,
                        vstd::utf8::encode_utf8(marker@),
                        earlier,
                    ) is None
            },
{
    let bytes = marker.as_bytes();
    proof {
        lemma_first_record(output@, bytes@, 0);
        assert(bytes@.len() > 0);
    }
    let mut offset: usize = 0;
    while bytes.len() <= output.len() - offset
        invariant
            offset <= output@.len(),
            bytes@.len() > 0,
            bytes@ == vstd::utf8::encode_utf8(marker@),
            first_record(output@, bytes@, offset as int) == reported_pid(output@, bytes@),
        decreases output@.len() - offset,
    {
        if marker_at(output, bytes, offset) {
            let pid = pid_at(output, offset + bytes.len());
            if pid.is_some() {
                proof {
                    lemma_first_record(output@, bytes@, 0);
                }
                return pid;
            }
        }
        offset += 1;
    }
    None
}

/// Where the digits behind an offset end inside `output`, more output changes
/// nothing about the record at that offset.
proof fn lemma_record_is_stable(output: Seq<u8>, more: Seq<u8>, marker: Seq<u8>, offset: int)
    requires
        0 <= offset,
        digits_end(output, offset + marker.len()) < output.len(),
    ensures
        record_at(output + more, marker, offset) == record_at(output, marker, offset),
{
    let longer = output + more;
    let start = offset + marker.len();
    let end = digits_end(output, start);
    lemma_digits_end_bounds(output, start);
    assert forall|i: int| start <= i < end implies is_digit(#[trigger] longer[i]) by {
        assert(is_digit(output[i]));
    }
    lemma_digits_end_unique(longer, start, end);
    assert(longer.subrange(start, end) =~= output.subrange(start, end));
    assert(longer.subrange(offset, start) =~= output.subrange(offset, start));
}

/// What is reported stays reported: once `output` reports a PID, it reports
/// the same one whatever output follows.
pub proof fn law_report_is_stable(output: Seq<u8>, more: Seq<u8>, marker: Seq<u8>)
    requires
        reported_pid(output, marker) is Some,
    ensures
        reported_pid(output + more, marker) == reported_pid(output, marker),
{
    lemma_first_record(output, marker, 0);
    let offset = choose|o: int|
        #![trigger record_at(output, marker, o)]
        {
            &&& 0 <= o
            &&& record_at(output, marker, o) == first_record(output, marker, 0)
            &&& forall|earlier: int|
                0 <= earlier < o ==> #[trigger] record_at(output, marker, earlier) is None
        };
    let delimiter = digits_end(output, offset + marker.len());
    lemma_digits_end_bounds(output, offset + marker.len());
    lemma_record_is_stable(output, more, marker, offset);
    assert forall|earlier: int| 0 <= earlier < offset implies #[trigger] record_at(
        output + more,
        marker,
        earlier,
    ) is None by {
        // The byte that ends the record also bounds every earlier run of digits.
        assert(record_at(output, marker, earlier) is None);
        lemma_digits_end_bounds(output, earlier + marker.len());
        if digits_end(output, earlier + marker.len()) == output.len() {
            assert(is_digit(output[delimiter]));
        }
        lemma_record_is_stable(output, more, marker, earlier);
    }
    lemma_first_at(output + more, marker, 0, offset);
}

proof fn lemma_first_at(output: Seq<u8>, marker: Seq<u8>, from: int, offset: int)
    requires
        0 <= from <= offset,
        record_at(output, marker, offset) is Some,
        forall|earlier: int|
            from <= earlier < offset ==> #[trigger] record_at(output, marker, earlier) is None,
    ensures
        first_record(output, marker, from) == record_at(output, marker, offset),
    decreases offset - from,
{
    if from < offset {
        assert(record_at(output, marker, from) is None);
        lemma_first_at(output, marker, from + 1, offset);
    }
}

/// A record needs its delimiter: while nothing but digits follows the first
/// marker, nothing is reported.
pub proof fn law_report_needs_a_delimiter(output: Seq<u8>, marker: Seq<u8>, offset: int)
    requires
        0 <= offset,
        forall|earlier: int| 0 <= earlier < offset ==> !#[trigger] occurs_at(output, marker, earlier),
        forall|i: int|
            offset + marker.len() <= i < output.len() ==> is_digit(#[trigger] output[i]),
    ensures
        reported_pid(output, marker) is None,
{
    lemma_first_record(output, marker, 0);
    assert forall|o: int| 0 <= o implies #[trigger] record_at(output, marker, o) is None by {
        if o < offset {
            assert(!occurs_at(output, marker, o));
        } else if occurs_at(output, marker, o) {
            lemma_digits_end_unique(output, o + marker.len(), output.len() as int);
        }
    }
}

proof fn lemma_pid_digits(n: nat)
    ensures
        pid_digits(n).len() > 0,
        forall|i: int| 0 <= i < pid_digits(n).len() ==> is_digit(#[trigger] pid_digits(n)[i]),
        number(pid_digits(n)) == n,
    decreases n,
{
    let digits = pid_digits(n);
    if n < 10 {
        assert(digits.drop_last() =~= Seq::<u8>::empty());
        assert(number(Seq::<u8>::empty()) == 0);
        assert(digits.last() == 48 + n);
    } else {
        lemma_pid_digits(n / 10);
        assert(digits.drop_last() =~= pid_digits(n / 10));
        assert(digits.last() == 48 + n % 10);
        assert forall|i: int| 0 <= i < digits.len() implies is_digit(#[trigger] digits[i]) by {
            if i < digits.len() - 1 {
                assert(digits[i] == digits.drop_last()[i]);
            }
        }
    }
}

/// A written record reads back: the first marker, followed by the decimal
/// digits of a PID and a byte that is no digit, reports exactly that PID,
/// whatever stands before and behind.
pub proof fn law_written_pid_is_reported(
    before: Seq<u8>,
    marker: Seq<u8>,
    pid: i32,
    delimiter: u8,
    behind: Seq<u8>,
)
    requires
        0 <= pid,
        !is_digit(delimiter),
        forall|earlier: int|
            0 <= earlier < before.len() ==> !#[trigger] occurs_at(
                before + marker + pid_digits(pid as nat) + seq![delimiter] + behind,
                marker,
                earlier,
            ),
    ensures
        reported_pid(
            before + marker + pid_digits(pid as nat) + seq![delimiter] + behind,
            marker,
        ) == Some(pid),
{
    let digits = pid_digits(pid as nat);
    let output = before + marker + digits + seq![delimiter] + behind;
    let offset = before.len() as int;
    let start = offset + marker.len();
    let end = start + digits.len();
    lemma_pid_digits(pid as nat);
    assert(output.subrange(offset, start) =~= marker);
    assert(output.subrange(start, end) =~= digits);
    assert forall|i: int| start <= i < end implies is_digit(#[trigger] output[i]) by {
        assert(output[i] == digits[i - start]);
    }
    assert(output[end] == delimiter);
    lemma_digits_end_unique(output, start, end);
    assert(record_at(output, marker, offset) == Some(pid));
    assert forall|earlier: int| 0 <= earlier < offset implies #[trigger] record_at(
        output,
        marker,
        earlier,
    ) is None by {
        assert(!occurs_at(output, marker, earlier));
    }
    lemma_first_at(output, marker, 0, offset);
}

/// A reported PID is never negative.
pub proof fn law_reported_pid_is_not_negative(output: Seq<u8>, marker: Seq<u8>)
    ensures
        reported_pid(output, marker) matches Some(pid) ==> 0 <= pid,
{
    lemma_first_record(output, marker, 0);
}

proof fn lemma_number_is_digits_value(digits: Seq<u8>)
    requires
        forall|k: int| 0 <= k < digits.len() ==> is_digit(#[trigger] digits[k]),
    ensures
        number(digits) == crate::decimal::digits_value(
            Seq::new(digits.len(), |k: int| digits[k] - 0x30),
        ),
    decreases digits.len(),
{
    let values = Seq::new(digits.len(), |k: int| digits[k] - 0x30);
    if digits.len() == 0 {
        crate::decimal::lemma_digits_value_push(values, 0);
        assert(values =~= Seq::<int>::empty());
    } else {
        let front = digits.drop_last();
        let front_values = Seq::new(front.len(), |k: int| front[k] - 0x30);
        lemma_number_is_digits_value(front);
        assert(values =~= front_values.push(digits.last() - 0x30));
        crate::decimal::lemma_digits_value_push(front_values, digits.last() - 0x30);
    }
}

proof fn lemma_spelled_record(
    output: Seq<u8>,
    marker: Seq<u8>,
    offset: int,
    end: int,
    pid: int,
)
    requires
        spells_record(output, marker, offset, end, pid),
    ensures
        0 <= pid <= i32::MAX ==> record_at(output, marker, offset) == Some(pid as i32),
        pid > i32::MAX ==> record_at(output, marker, offset) is None,
        0 <= pid,
{
    let start = offset + marker.len();
    let digits = output.subrange(start, end);
    assert(output.subrange(offset, start) =~= marker);
    lemma_digits_end_unique(output, start, end);
    assert forall|k: int| 0 <= k < digits.len() implies is_digit(#[trigger] digits[k]) by {
        assert(0x30 <= output[start + k] <= 0x39);
    }
    lemma_number_is_digits_value(digits);
    assert(Seq::new(digits.len(), |k: int| digits[k] - 0x30) =~= Seq::new(
        (end - start) as nat,
        |k: int| output[start + k] - 0x30,
    ));
}

proof fn lemma_record_is_spelled(output: Seq<u8>, marker: Seq<u8>, offset: int)
    requires
        record_at(output, marker, offset) is Some,
    ensures
        spells_record(
            output,
            marker,
            offset,
            digits_end(output, offset + marker.len()),
            record_at(output, marker, offset)->0 as int,
        ),
{
    let start = offset + marker.len();
    let end = digits_end(output, start);
    let digits = output.subrange(start, end);
    lemma_digits_end_bounds(output, start);
    assert forall|k: int| 0 <= k < marker.len() implies output[offset + k] == #[trigger] marker[k] by {
        assert(output.subrange(offset, start)[k] == marker[k]);
    }
    assert forall|k: int| start <= k < end implies 0x30 <= #[trigger] output[k] <= 0x39 by {
        assert(is_digit(output[k]));
    }
    assert forall|k: int| 0 <= k < digits.len() implies is_digit(#[trigger] digits[k]) by {
        assert(is_digit(output[start + k]));
    }
    lemma_number_is_digits_value(digits);
    assert(Seq::new(digits.len(), |k: int| digits[k] - 0x30) =~= Seq::new(
        (end - start) as nat,
        |k: int| output[start + k] - 0x30,
    ));
}

/// The first record is reported: where the bytes spell a record whose number
/// an `i32` can hold, and spell no such record further in front, that number is
/// what is reported.
pub proof fn law_first_spelled_record_is_reported(
    output: Seq<u8>,
    marker: Seq<u8>,
    offset: int,
    end: int,
    pid: int,
)
    requires
        spells_record(output, marker, offset, end, pid),
        pid <= 0x7fff_ffff,
        forall|o: int, e: int, p: int|
            o < offset && #[trigger] spells_record(output, marker, o, e, p) ==> p > 0x7fff_ffff,
    ensures
        reported_pid(output, marker) == Some(pid as i32),
{
    lemma_spelled_record(output, marker, offset, end, pid);
    assert forall|earlier: int| 0 <= earlier < offset implies #[trigger] record_at(
        output,
        marker,
        earlier,
    ) is None by {
        if record_at(output, marker, earlier) is Some {
            lemma_record_is_spelled(output, marker, earlier);
        }
    }
    lemma_first_at(output, marker, 0, offset);
}

/// Nothing but a record is reported: where the bytes nowhere spell a record
/// whose number an `i32` can hold, there is no report.
pub proof fn law_nothing_else_is_reported(output: Seq<u8>, marker: Seq<u8>)
    requires
        forall|o: int, e: int, p: int| #[trigger]
            spells_record(output, marker, o, e, p) ==> p > 0x7fff_ffff,
    ensures
        reported_pid(output, marker) is None,
{
    lemma_first_record(output, marker, 0);
    assert forall|o: int| 0 <= o implies #[trigger] record_at(output, marker, o) is None by {
        if record_at(output, marker, o) is Some {
            lemma_record_is_spelled(output, marker, o);
        }
    }
}

/// A report is in the output: the bytes spell the reported PID, and spell no
/// record further in front whose number an `i32` can hold.
pub proof fn law_report_is_spelled(output: Seq<u8>, marker: Seq<u8>)
    requires
        reported_pid(output, marker) is Some,
    ensures
        exists|offset: int, end: int|
            {
                &&& #[trigger] spells_record(
                    output,
                    marker,
                    offset,
                    end,
                    reported_pid(output, marker)->0 as int,
                )
                &&& forall|o: int, e: int, p: int|
                    o < offset && #[trigger] spells_record(output, marker, o, e, p) ==> p
                        > 0x7fff_ffff
            },
{
    lemma_first_record(output, marker, 0);
    let offset = choose|o: int|
        #![trigger record_at(output, marker, o)]
        {
            &&& 0 <= o
            &&& record_at(output, marker, o) == first_record(output, marker, 0)
            &&& forall|earlier: int|
                0 <= earlier < o ==> #[trigger] record_at(output, marker, earlier) is None
        };
    lemma_record_is_spelled(output, marker, offset);
    assert forall|o: int, e: int, p: int|
        o < offset && #[trigger] spells_record(output, marker, o, e, p) implies p > 0x7fff_ffff by {
        lemma_spelled_record(output, marker, o, e, p);
        assert(record_at(output, marker, o) is None);
    }
}

} // verus!
