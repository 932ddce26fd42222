//! The bytes that a process received and sent, read from its interface table.

use crate::error::{AdbError, Missing};
use crate::network::{counter, counter_of};
use crate::text::{
    chars_of, lines, segments, split, split_lines, split_words, starts_with, texts, trim,
    trimmed, words,
};
use vstd::prelude::*;

verus! {

/// The bytes that a process received and sent over the interfaces that count.
#[derive(Debug, Clone, Copy, PartialEq, Eq)]
pub struct TrafficCounters {
    pub rx_bytes: u64,
    pub tx_bytes: u64,
}

/// Whether an interface of this name carries traffic to the outside: its
/// name begins with one of `wlan`, `rmnet`, `ccmni`, `eth`, `usb`, `pdp`,
/// `cell` and `rmnet_data`.
pub open spec fn is_outward(name: Seq<char>) -> bool {
    "wlan"@.is_prefix_of(name) || "rmnet"@.is_prefix_of(name) || "ccmni"@.is_prefix_of(name)
        || "eth"@.is_prefix_of(name) || "usb"@.is_prefix_of(name) || "pdp"@.is_prefix_of(name)
        || "cell"@.is_prefix_of(name) || "rmnet_data"@.is_prefix_of(name)
}

/// Whether the traffic of an interface of this name is counted: it is
/// outward, and it is not a loopback interface, whose name begins with `lo`.
pub open spec fn is_counted(name: Seq<char>) -> bool {
    is_outward(name) && !"lo"@.is_prefix_of(name)
}

/// Whether the trimmed line `t` is empty or belongs to the table's heading.
pub open spec fn is_heading(t: Seq<char>) -> bool {
    t.len() == 0 || "Inter-"@.is_prefix_of(t) || "face"@.is_prefix_of(t)
}

/// The name of the interface on the trimmed line `t`: what stands before the first colon.
pub open spec fn interface_name(t: Seq<char>) -> Seq<char> {
    trimmed(segments(t, ':')[0])
}

/// The columns of the interface on the trimmed line `t`: the words between
/// the first colon and the second.
pub open spec fn interface_columns(t: Seq<char>) -> Seq<Seq<char>> {
    if segments(t, ':').len() >= 2 {
        words(trimmed(segments(t, ':')[1]))
    } else {
        Seq::empty()
    }
}

/// The bytes received and sent that `line` reports: the first and the ninth
/// column of a line that is no heading, names an interface that is counted,
/// and has at least sixteen columns.
pub open spec fn traffic_row(line: Seq<char>) -> Option<(nat, nat)> {
    let t = trimmed(line);
    let cols = interface_columns(t);
    if !is_heading(t) && is_counted(interface_name(t)) && cols.len() >= 16 {
        Some((counter_of(cols[0]), counter_of(cols[8])))
    } else {
        None
    }
}

/// The bytes received that `line` adds to the total.
pub open spec fn received_on(line: Seq<char>) -> nat {
    match traffic_row(line) {
        Some(row) => row.0,
        None => 0,
    }
}

/// The bytes sent that `line` adds to the total.
pub open spec fn sent_on(line: Seq<char>) -> nat {
    match traffic_row(line) {
        Some(row) => row.1,
        None => 0,
    }
}

/// The bytes received according to the lines `ls`, added up.
pub open spec fn received(ls: Seq<Seq<char>>) -> nat
    decreases ls.len(),
{
    if ls.len() == 0 {
        0
    } else {
        received(ls.drop_last()) + received_on(ls.last())
    }
}

/// The bytes sent according to the lines `ls`, added up.
pub open spec fn sent(ls: Seq<Seq<char>>) -> nat
    decreases ls.len(),
{
    if ls.len() == 0 {
        0
    } else {
        sent(ls.drop_last()) + sent_on(ls.last())
    }
}

/// `n`, or the greatest 64-bit number where `n` is greater.
pub open spec fn capped(n: nat) -> nat {
    if n > u64::MAX {
        u64::MAX as nat
    } else {
        n
    }
}

/// The byte counters according to the interface table `text`: the totals
/// of its lines, each no more than the greatest 64-bit number, where they
/// are not both zero.
pub open spec fn traffic_counters(text: Seq<char>) -> Option<TrafficCounters> {
    if received(lines(text)) == 0 && sent(lines(text)) == 0 {
        None
    } else {
        Some(
            TrafficCounters {
                rx_bytes: capped(received(lines(text))) as u64,
                tx_bytes: capped(sent(lines(text))) as u64,
            },
        )
    }
}

/// The totals of a concatenation are the sums of the totals of its parts.
pub proof fn lemma_totals_of_concatenation(a: Seq<Seq<char>>, b: Seq<Seq<char>>)
    ensures
        received(a + b) == received(a) + received(b),
        sent(a + b) == sent(a) + sent(b),
    decreases b.len(),
{
    if b.len() == 0 {
        assert(a + b =~= a);
    } else {
        lemma_totals_of_concatenation(a, b.drop_last());
        assert((a + b).drop_last() =~= a + b.drop_last());
        assert((a + b).last() == b.last());
    }
}

/// A line whose interface is not counted changes no total, wherever it
/// stands among the lines and whatever its columns hold. That is so of a
/// loopback interface, and of one that matches none of the prefixes.
pub proof fn lemma_uncounted_line_is_ignored(
    before: Seq<Seq<char>>,
    line: Seq<char>,
    after: Seq<Seq<char>>,
)
    requires
        "lo"@.is_prefix_of(interface_name(trimmed(line))) || !is_outward(
            interface_name(trimmed(line)),
        ),
    ensures
        traffic_row(line) is None,
        received(before + seq![line] + after) == received(before + after),
        sent(before + seq![line] + after) == sent(before + after),
{
    let one = seq![line];
    assert(received(one) == 0 && sent(one) == 0) by {
        assert(one.drop_last() =~= Seq::<Seq<char>>::empty());
        assert(one.last() == line);
        assert(received(one.drop_last()) == 0);
        assert(sent(one.drop_last()) == 0);
    }
    lemma_totals_of_concatenation(before, one);
    lemma_totals_of_concatenation(before + one, after);
    lemma_totals_of_concatenation(before, after);
}

/// Whether `name` is the name of an interface that is counted.
fn counted(name: &Vec<char>) -> (b: bool)
    ensures
        b == is_counted(name@),
{
    let outward = starts_with(name, &chars_of("wlan")) || starts_with(name, &chars_of("rmnet"))
        || starts_with(name, &chars_of("ccmni")) || starts_with(name, &chars_of("eth"))
        || starts_with(name, &chars_of("usb")) || starts_with(name, &chars_of("pdp"))
        || starts_with(name, &chars_of("cell")) || starts_with(name, &chars_of("rmnet_data"));
    outward && !starts_with(name, &chars_of("lo"))
}

/// The bytes received and sent that the line `row` reports.
fn counters_on(row: &Vec<char>) -> (r: Option<(u64, u64)>)
    ensures
        traffic_row(row@) == (match r {
            Some(c) => Some((c.0 as nat, c.1 as nat)),
            None => None,
        }),
{
    let t = trim(row);
    if t.len() == 0 || starts_with(&t, &chars_of("Inter-")) || starts_with(&t, &chars_of("face")) {
        return None;
    }
    let parts = split(&t, ':');
    assert(texts(parts@)[0] == parts@[0]@);
    let name = trim(&parts[0]);
    if !counted(&name) {
        return None;
    }
    if parts.len() < 2 {
        return None;
    }
    assert(texts(parts@)[1] == parts@[1]@);
    let cols = split_words(&trim(&parts[1]));
    if cols.len() >= 16 {
        assert(texts(cols@)[0] == cols@[0]@);
        assert(texts(cols@)[8] == cols@[8]@);
        Some((counter(&cols[0]), counter(&cols[8])))
    } else {
        None
    }
}

/// `a + b`, or the greatest 64-bit number where the sum is greater.
fn capped_sum(a: u64, b: u64) -> (r: u64)
    ensures
        r == capped((a + b) as nat),
{
    if a > u64::MAX - b {
        u64::MAX
    } else {
        a + b
    }
}

/// Reads the bytes that a process received and sent from its interface table `raw`.
///
/// The counters of all lines that name a counted interface and have at
/// least sixteen columns are added up, bytes received from the first column
/// and bytes sent from the ninth; a sum stops at the greatest 64-bit number.
/// Where both sums are zero the counters are missing.
pub fn parse_traffic(raw: &str) -> (r: Result<TrafficCounters, AdbError>)
    ensures
        match r {
            Ok(c) => traffic_counters(raw@) == Some(c) && (c.rx_bytes != 0 || c.tx_bytes != 0),
            Err(e) => traffic_counters(raw@) is None && e == AdbError::ParseFailed(
                Missing::TrafficCounters,
            ),
        },
{
    let text = chars_of(raw);
    let rows = split_lines(&text);
    let ghost ls = lines(raw@);
    let mut rx_bytes: u64 = 0;
    let mut tx_bytes: u64 = 0;
    let mut k: usize = 0;
    assert(ls.take(0) =~= Seq::<Seq<char>>::empty());
    while k < rows.len()
        invariant
            k <= rows.len(),
            texts(rows@) == ls,
            rx_bytes == capped(received(ls.take(k as int))),
            tx_bytes == capped(sent(ls.take(k as int))),
        decreases rows.len() - k,
    {
        assert(texts(rows@)[k as int] == rows@[k as int]@);
        proof {
            assert(ls.take(k + 1).drop_last() =~= ls.take(k as int));
            assert(ls.take(k + 1).last() == ls[k as int]);
        }
        match counters_on(&rows[k]) {
            Some(c) => {
                rx_bytes = capped_sum(rx_bytes, c.0);
                tx_bytes = capped_sum(tx_bytes, c.1);
            },
            None => {},
        }
        k += 1;
    }
    assert(ls.take(rows.len() as int) =~= ls);
    if rx_bytes == 0 && tx_bytes == 0 {
        return Err(AdbError::ParseFailed(Missing::TrafficCounters));
    }
    Ok(TrafficCounters { rx_bytes, tx_bytes })
}

} // verus!
