//! What the names and headers of captures say.

use vstd::arithmetic::power::pow;
use vstd::prelude::*;

use super::connection_capture::{
    final_text, temp_text, threshold_text, whole_ms, PacketModel, SessionModel, Timestamp,
};
use crate::capture::CaptureHeader;
use crate::packet::CompressionThreshold;
use crate::text::{
    decimals_stand_for_their_number, is_digit, number_of, padded_numbers_fill_the_width,
    padded_text, signed_padded_text, signs_stand_in_front, small_numbers_fill_just_the_width,
};

verus! {

/// The name of a finished capture ends in "-online.vpcap" just where the server was
/// noted to run in online mode, and in "-offline.vpcap" just where it was not,
/// whatever the threshold; and the header that the capture ends with says the same.
pub proof fn names_tell_online_mode(m: SessionModel, threshold: CompressionThreshold)
    ensures
        ({
            let name = final_text(m.started_at, m.client_port, threshold, m.online_mode);
            &&& "-online.vpcap"@.is_suffix_of(name) <==> m.online_mode
            &&& "-offline.vpcap"@.is_suffix_of(name) <==> !m.online_mode
            &&& m.final_header(threshold).online_mode <==> "-online.vpcap"@.is_suffix_of(name)
        }),
{
    reveal_strlit("-online.vpcap");
    reveal_strlit("-offline.vpcap");
    reveal_strlit("online");
    reveal_strlit("offline");
    reveal_strlit("-");
    reveal_strlit(".vpcap");
    let name = final_text(m.started_at, m.client_port, threshold, m.online_mode);
    let on = "-online.vpcap"@;
    let off = "-offline.vpcap"@;
    let n = name.len();
    if m.online_mode {
        assert(on =~= name.subrange(n - 13, n as int));
        assert(name[n - 13] == '-');
        assert(name[n - 13] != off[1]);
        if off.is_suffix_of(name) {
            assert(name.subrange(n - 14, n as int)[1] == off[1]);
        }
    } else {
        assert(off =~= name.subrange(n - 14, n as int));
        if on.is_suffix_of(name) {
            assert(name.subrange(n - 13, n as int)[0] == on[0]);
            assert(name[n - 13] == 'o');
        }
    }
}

/// The two names of a capture begin alike, with the time and the port. Behind that
/// the first has ".tmp", and the second the threshold, how the server ran and
/// ".vpcap".
pub proof fn names_begin_alike(
    started_at: Timestamp,
    port: u16,
    threshold: CompressionThreshold,
    online_mode: bool,
) -> (stem: Seq<char>)
    ensures
        temp_text(started_at, port) == stem + ".tmp"@,
        final_text(started_at, port, threshold, online_mode) == stem + "-"@ + threshold_text(
            threshold,
        ) + (if online_mode {
            "-online.vpcap"@
        } else {
            "-offline.vpcap"@
        }),
        stem.len() == started_at.prefix().len() + 6,
        started_at.prefix().is_prefix_of(stem),
        stem[started_at.prefix().len() as int] == '-',
        forall|i: int|
            started_at.prefix().len() < i < stem.len() ==> is_digit(#[trigger] stem[i]),
        number_of(stem.skip(started_at.prefix().len() as int + 1)) == port,
{
    reveal_strlit("-online.vpcap");
    reveal_strlit("-offline.vpcap");
    reveal_strlit("online");
    reveal_strlit("offline");
    reveal_strlit("-");
    reveal_strlit(".vpcap");
    let time = started_at.prefix();
    let digits = padded_text(port as nat, 5);
    let stem = time + "-"@ + digits;
    padded_numbers_fill_the_width(port as nat, 5);
    lemma_tens();
    small_numbers_fill_just_the_width(port as nat, 5);
    assert(time =~= stem.subrange(0, time.len() as int));
    assert(stem.skip(time.len() as int + 1) =~= digits);
    assert forall|i: int| time.len() < i < stem.len() implies is_digit(#[trigger] stem[i]) by {
        assert(stem[i] == digits[i - time.len() - 1]);
    }
    assert(final_text(started_at, port, threshold, online_mode) =~= stem + "-"@ + threshold_text(
        threshold,
    ) + (if online_mode {
        "-online.vpcap"@
    } else {
        "-offline.vpcap"@
    }));
    stem
}

/// A threshold below zero is told as "none", any other by its digits.
pub proof fn thresholds_are_told_by_digits(threshold: CompressionThreshold)
    ensures
        threshold.0 < 0 ==> threshold_text(threshold) == seq!['n', 'o', 'n', 'e'],
        threshold.0 >= 0 ==> {
            let t = threshold_text(threshold);
            &&& t.len() > 0
            &&& forall|i: int| 0 <= i < t.len() ==> is_digit(#[trigger] t[i])
            &&& number_of(t) == threshold.0
            &&& t[0] == '0' ==> threshold.0 == 0
        },
{
    reveal_strlit("none");
    if threshold.0 >= 0 {
        decimals_stand_for_their_number(threshold.0 as nat);
    } else {
        assert("none"@ =~= seq!['n', 'o', 'n', 'e']);
    }
}

/// The first powers of ten.
proof fn lemma_tens()
    ensures
        pow(10, 2) == 100,
        pow(10, 3) == 1000,
        pow(10, 5) == 100_000,
{
    reveal(pow);
    reveal_with_fuel(pow, 6);
}

/// The text of a time says, from its end: the millisecond in three digits, a hyphen,
/// the second, minute and hour in two each, a hyphen, and the day and month in two
/// each. What stands before is the year, in four digits at least, with its sign, if
/// it is below zero.
pub proof fn times_are_told_in_full(time: Timestamp)
    requires
        time.month < 100,
        time.day < 100,
        time.hour < 100,
        time.minute < 100,
        time.second < 100,
        time.millisecond < 1000,
    ensures
        ({
            let t = time.prefix();
            let n = t.len() - 15;
            &&& n >= 4
            &&& time.year >= 0 ==> number_of(t.take(n)) == time.year
            &&& time.year < 0 ==> t[0] == '-' && number_of(t.subrange(1, n)) == -time.year
            &&& 0 <= time.year < 10000 ==> n == 4
            &&& number_of(t.subrange(n, n + 2)) == time.month
            &&& number_of(t.subrange(n + 2, n + 4)) == time.day
            &&& t[n + 4] == '-'
            &&& number_of(t.subrange(n + 5, n + 7)) == time.hour
            &&& number_of(t.subrange(n + 7, n + 9)) == time.minute
            &&& number_of(t.subrange(n + 9, n + 11)) == time.second
            &&& t[n + 11] == '-'
            &&& number_of(t.subrange(n + 12, n + 15)) == time.millisecond
        }),
{
    reveal_strlit("-");
    lemma_tens();
    let year = signed_padded_text(time.year as int, 4);
    let month = padded_text(time.month as nat, 2);
    let day = padded_text(time.day as nat, 2);
    let hour = padded_text(time.hour as nat, 2);
    let minute = padded_text(time.minute as nat, 2);
    let second = padded_text(time.second as nat, 2);
    let ms = padded_text(time.millisecond as nat, 3);
    small_numbers_fill_just_the_width(time.month as nat, 2);
    small_numbers_fill_just_the_width(time.day as nat, 2);
    small_numbers_fill_just_the_width(time.hour as nat, 2);
    small_numbers_fill_just_the_width(time.minute as nat, 2);
    small_numbers_fill_just_the_width(time.second as nat, 2);
    small_numbers_fill_just_the_width(time.millisecond as nat, 3);
    padded_numbers_fill_the_width(time.month as nat, 2);
    padded_numbers_fill_the_width(time.day as nat, 2);
    padded_numbers_fill_the_width(time.hour as nat, 2);
    padded_numbers_fill_the_width(time.minute as nat, 2);
    padded_numbers_fill_the_width(time.second as nat, 2);
    padded_numbers_fill_the_width(time.millisecond as nat, 3);
    signs_stand_in_front(time.year as int, 4);
    if 0 <= time.year < 10000 {
        assert(pow(10, 4) == 10_000) by {
            reveal(pow);
            reveal_with_fuel(pow, 5);
        }
        small_numbers_fill_just_the_width(time.year as nat, 4);
    }
    if time.year >= 0 {
        padded_numbers_fill_the_width(time.year as nat, 4);
    }
    let t = time.prefix();
    let n = t.len() - 15;
    assert(n == year.len());
    assert(t.take(n) =~= year);
    assert(t.subrange(1, n) =~= year.skip(1));
    assert(t.subrange(n, n + 2) =~= month);
    assert(t.subrange(n + 2, n + 4) =~= day);
    assert(t.subrange(n + 5, n + 7) =~= hour);
    assert(t.subrange(n + 7, n + 9) =~= minute);
    assert(t.subrange(n + 9, n + 11) =~= second);
    assert(t.subrange(n + 12, n + 15) =~= ms);
}

/// Whole milliseconds are as many as have passed in full, before as after the epoch.
pub proof fn milliseconds_are_those_that_passed(nanos: int)
    ensures
        nanos >= 0 ==> {
            &&& whole_ms(nanos) >= 0
            &&& whole_ms(nanos) * 1_000_000 <= nanos < (whole_ms(nanos) + 1) * 1_000_000
        },
        whole_ms(-nanos) == -whole_ms(nanos),
{
}

/// A packet is recorded with its number and with all that it was captured with.
pub proof fn records_say_what_was_captured(p: PacketModel, sequence: u64)
    ensures
        p.record(sequence).sequence == sequence,
        p.record(sequence).side == p.side,
        p.record(sequence).state == p.state,
        p.record(sequence).compression_threshold == p.compression_threshold,
        p.record(sequence).packet_id == p.packet_id,
        p.record(sequence).raw_bytes == p.raw_bytes,
{
}

/// Each packet takes one number, and giving it back undoes just that.
pub proof fn packets_take_one_number_each(m: SessionModel)
    ensures
        m.next_sequence < u64::MAX ==> {
            &&& m.after_packet().next_sequence == m.next_sequence + 1
            &&& m.after_packet().before_packet() == m
            &&& m.after_packet().client_port == m.client_port
            &&& m.after_packet().started_at == m.started_at
            &&& m.after_packet().online_mode == m.online_mode
            &&& m.after_packet().header == m.header
        },
        m.next_sequence > 0 ==> {
            &&& m.before_packet().next_sequence == m.next_sequence - 1
            &&& m.before_packet().after_packet() == m
        },
{
}

/// The header that a capture ends with says how the connection ended, and else what
/// it said at first.
pub proof fn the_last_header_says_how_it_ended(m: SessionModel, threshold: CompressionThreshold)
    ensures
        ({
            let h: CaptureHeader = m.final_header(threshold);
            &&& h.protocol_version == m.header.protocol_version
            &&& h.connection_started_unix_ms == m.header.connection_started_unix_ms
            &&& h.final_compression_threshold == threshold
            &&& h.online_mode == m.online_mode
        }),
{
}

} // verus!
