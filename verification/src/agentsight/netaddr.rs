//! Text of network addresses.

use vstd::prelude::*;

use super::record;
use super::record::ByteOrder;
use crate::text;
use crate::text::{push_decimal, push_hexadecimal};

verus! {

/// Four numbers with dots between them.
pub open spec fn dotted_quad(a: u8, b: u8, c: u8, d: u8) -> Seq<char> {
    text::decimal(a as nat) + seq!['.'] + text::decimal(b as nat) + seq!['.'] + text::decimal(
        c as nat,
    ) + seq!['.'] + text::decimal(d as nat)
}

/// Appends an IPv4 address.
pub fn push_ipv4(out: &mut String, a: u8, b: u8, c: u8, d: u8)
    ensures
        final(out)@ == old(out)@ + dotted_quad(a, b, c, d),
        final(out)@ == old(out)@ + text::decimal(a as nat) + "."@ + text::decimal(b as nat) + "."@
            + text::decimal(c as nat) + "."@ + text::decimal(d as nat),
{
    proof {
        reveal_strlit(".");
        assert("."@ =~= seq!['.']);
    }
    let ghost before = out@;
    push_decimal(out, a as u64);
    out.push('.');
    push_decimal(out, b as u64);
    out.push('.');
    push_decimal(out, c as u64);
    out.push('.');
    push_decimal(out, d as u64);
    assert(out@ =~= before + dotted_quad(a, b, c, d));
}

/// The text of a word that holds an IPv4 address in network order, read from
/// memory with the given byte order.
pub open spec fn ipv4_word_text(addr: u32, order: ByteOrder) -> Seq<char> {
    let low = (addr % 256) as u8;
    let second = ((addr / 256) % 256) as u8;
    let third = ((addr / 65536) % 256) as u8;
    let high = (addr / 16777216) as u8;
    match order {
        ByteOrder::Little => dotted_quad(low, second, third, high),
        ByteOrder::Big => dotted_quad(high, third, second, low),
    }
}

/// The text of a word that holds an IPv4 address in network order.
pub fn format_ipv4_word(addr: u32, order: ByteOrder) -> (r: String)
    ensures
        r@ == ipv4_word_text(addr, order),
{
    let low: u8 = (addr % 256) as u8;
    let second: u8 = ((addr / 256) % 256) as u8;
    let third: u8 = ((addr / 65536) % 256) as u8;
    let high: u8 = (addr / 16777216) as u8;
    let mut out = String::new();
    match order {
        ByteOrder::Little => push_ipv4(&mut out, low, second, third, high),
        ByteOrder::Big => push_ipv4(&mut out, high, third, second, low),
    }
    assert(out@ =~= ipv4_word_text(addr, order));
    out
}

/// The eight 16-bit groups of an IPv6 address.
pub open spec fn groups_of(raw: Seq<u8>) -> Seq<u16> {
    Seq::new(8, |i: int| (raw[2 * i] * 256 + raw[2 * i + 1]) as u16)
}

/// How many zero groups follow one another from `start`.
pub open spec fn zeros_from(groups: Seq<u16>, start: int) -> nat
    decreases groups.len() - start,
{
    if start < 0 || start >= groups.len() || groups[start] != 0 {
        0
    } else {
        1 + zeros_from(groups, start + 1)
    }
}

/// The longest run of zero groups begins at `start`; of several, the first.
pub open spec fn is_longest(groups: Seq<u16>, start: int) -> bool {
    &&& 0 <= start < groups.len()
    &&& forall|t: int|
        0 <= t < groups.len() ==> #[trigger] zeros_from(groups, t) <= zeros_from(groups, start)
    &&& forall|t: int| 0 <= t < start
        ==> #[trigger] zeros_from(groups, t) < zeros_from(groups, start)
}

/// Where the longest run of zero groups begins.
pub open spec fn longest_run(groups: Seq<u16>) -> int {
    choose|start: int| is_longest(groups, start)
}

/// The groups in hexadecimal, with colons between them.
pub open spec fn colon_hex(groups: Seq<u16>) -> Seq<char> {
    text::joined(groups.map_values(|g: u16| text::hexadecimal(g as nat)), seq![':'])
}

/// The address stands for an IPv4 address.
pub open spec fn is_mapped(groups: Seq<u16>) -> bool {
    &&& groups[0] == 0
    &&& groups[1] == 0
    &&& groups[2] == 0
    &&& groups[3] == 0
    &&& groups[4] == 0
    &&& groups[5] == 0xffff
}

/// The text of an IPv6 address: an IPv4 address is shown as such, and else the
/// longest run of at least two zero groups is left out.
pub open spec fn ipv6_text(raw: Seq<u8>) -> Seq<char> {
    let groups = groups_of(raw);
    let start = longest_run(groups);
    let len = zeros_from(groups, start);
    if is_mapped(groups) {
        "::ffff:"@ + dotted_quad(raw[12], raw[13], raw[14], raw[15])
    } else if len > 1 {
        colon_hex(groups.take(start)) + "::"@ + colon_hex(groups.skip(start + len))
    } else {
        colon_hex(groups)
    }
}

/// Appends groups in hexadecimal, with colons between them.
fn push_groups(out: &mut String, groups: &Vec<u16>, from: usize, to: usize)
    requires
        from <= to <= groups@.len(),
    ensures
        final(out)@ == old(out)@ + colon_hex(groups@.subrange(from as int, to as int)),
{
    let ghost before = out@;
    let ghost f = |g: u16| text::hexadecimal(g as nat);
    let mut i: usize = from;
    proof {
        assert(groups@.subrange(from as int, from as int).map_values(f) =~= Seq::empty());
        assert(before + colon_hex(groups@.subrange(from as int, from as int)) =~= before);
    }
    while i < to
        invariant
            from <= i <= to <= groups@.len(),
            f == (|g: u16| text::hexadecimal(g as nat)),
            out@ == before + colon_hex(groups@.subrange(from as int, i as int)),
        decreases to - i,
    {
        let ghost done = groups@.subrange(from as int, i as int);
        if i > from {
            out.push(':');
        }
        push_hexadecimal(out, groups[i]);
        proof {
            let next = groups@.subrange(from as int, i + 1);
            assert(next.map_values(f).drop_last() =~= done.map_values(f));
            assert(next.map_values(f).last() == f(groups@[i as int]));
            assert(out@ =~= before + colon_hex(next));
        }
        i = i + 1;
    }
}

fn find_longest(groups: &Vec<u16>) -> (r: (usize, usize))
    requires
        groups@.len() == 8,
    ensures
        is_longest(groups@, r.0 as int),
        r.1 == zeros_from(groups@, r.0 as int),
        r.0 + r.1 <= 8,
{
    let ghost g = groups@;
    // Runs from the back: the run from `start` is one longer than the next.
    let mut start: usize = 8;
    let mut run: usize = 0;
    let mut best: usize = 8;
    let mut best_len: usize = 0;
    while start > 0
        invariant
            g == groups@,
            g.len() == 8,
            start <= 8,
            run == zeros_from(g, start as int),
            start + run <= 8,
            start < 8 ==> start <= best < 8 && best_len == zeros_from(g, best as int) && best
                + best_len <= 8,
            start < 8 ==> forall|t: int|
                start <= t < 8 ==> #[trigger] zeros_from(g, t) <= best_len,
            start < 8 ==> forall|t: int|
                start <= t < best ==> #[trigger] zeros_from(g, t) < best_len,
            start == 8 ==> best_len == 0,
        decreases start,
    {
        let ghost later = start;
        start = start - 1;
        if groups[start] == 0 {
            run = run + 1;
        } else {
            run = 0;
        }
        assert(run == zeros_from(g, start as int));
        if run >= best_len {
            best = start;
            best_len = run;
        }
    }
    (best, best_len)
}

/// The text of an IPv6 address.
pub fn push_ipv6(out: &mut String, raw: &[u8; 16])
    ensures
        final(out)@ == old(out)@ + ipv6_text(raw@),
{
    let ghost before = out@;
    let mut groups: Vec<u16> = Vec::new();
    let mut i: usize = 0;
    while i < 8
        invariant
            i <= 8,
            groups@ == groups_of(raw@).take(i as int),
        decreases 8 - i,
    {
        groups.push(raw[2 * i] as u16 * 256 + raw[2 * i + 1] as u16);
        i = i + 1;
        assert(groups@ =~= groups_of(raw@).take(i as int));
    }
    assert(groups@ =~= groups_of(raw@));
    if groups[0] == 0 && groups[1] == 0 && groups[2] == 0 && groups[3] == 0 && groups[4] == 0
        && groups[5] == 0xffff {
        out.append("::ffff:");
        push_ipv4(out, raw[12], raw[13], raw[14], raw[15]);
        assert(out@ =~= before + ipv6_text(raw@));
        return;
    }
    let (start, len) = find_longest(&groups);
    proof {
        let s = longest_run(groups@);
        assert(is_longest(groups@, s));
        if s < start {
            assert(zeros_from(groups@, s) < zeros_from(groups@, start as int));
        }
        if start < s {
            assert(zeros_from(groups@, start as int) < zeros_from(groups@, s));
        }
    }
    if len > 1 {
        push_groups(out, &groups, 0, start);
        out.append("::");
        push_groups(out, &groups, start + len, 8);
        proof {
            assert(groups@.subrange(0, start as int) =~= groups@.take(start as int));
            assert(groups@.subrange(start + len, 8) =~= groups@.skip(start + len));
            assert(out@ =~= before + ipv6_text(raw@));
        }
    } else {
        push_groups(out, &groups, 0, 8);
        assert(groups@.subrange(0, 8) =~= groups@);
    }
}

// ---- laws -----------------------------------------------------------------------
/// An IPv4 address in memory is shown byte by byte as it lies there, whatever the
/// order that the machine reads words in.
pub proof fn addresses_are_shown_as_they_lie(data: Seq<u8>, at: int, order: ByteOrder)
    requires
        0 <= at,
        at + 4 <= data.len(),
    ensures
        ipv4_word_text(record::number_at(data, at, 4, order) as u32, order) == text::decimal(
            data[at] as nat,
        ) + "."@ + text::decimal(data[at + 1] as nat) + "."@ + text::decimal(data[at + 2] as nat)
            + "."@ + text::decimal(data[at + 3] as nat),
{
    record::words_are_spelled_out(data, at);
    reveal_strlit(".");
    assert("."@ =~= seq!['.']);
    let n = record::number_at(data, at, 4, order) as int;
    let (a, b, c, d) = match order {
        ByteOrder::Little => (data[at], data[at + 1], data[at + 2], data[at + 3]),
        ByteOrder::Big => (data[at + 3], data[at + 2], data[at + 1], data[at]),
    };
    assert(n == a + 0x100 * b + 0x1_0000 * c + 0x100_0000 * d);
    assert(n % 256 == a);
    assert(n / 256 == b + 0x100 * c + 0x1_0000 * d);
    assert((n / 256) % 256 == b);
    assert(n / 65536 == c + 0x100 * d);
    assert((n / 65536) % 256 == c);
    assert(n / 16777216 == d);
}

/// The groups `from` to `to` of the bytes of an address, in hexadecimal with colons
/// between them.
pub open spec fn shown_groups(raw: Seq<u8>, from: int, to: int) -> Seq<char> {
    text::joined(
        Seq::new(
            (to - from) as nat,
            |i: int|
                text::hexadecimal(
                    (256 * raw[2 * (from + i)] + raw[2 * (from + i) + 1]) as nat,
                ),
        ),
        ":"@,
    )
}

/// The groups `from` to `to` of the bytes of an address are zero.
pub open spec fn zero_groups(raw: Seq<u8>, from: int, to: int) -> bool {
    forall|i: int|
        #![trigger raw[2 * i]]
        from <= i < to ==> raw[2 * i] == 0 && raw[2 * i + 1] == 0
}

/// The address stands for an IPv4 address: ten zero bytes, and two full ones.
pub open spec fn stands_for_ipv4(raw: Seq<u8>) -> bool {
    &&& forall|i: int| 0 <= i < 10 ==> #[trigger] raw[i] == 0
    &&& raw[10] == 0xff
    &&& raw[11] == 0xff
}

proof fn lemma_groups_shown(raw: Seq<u8>, from: int, to: int)
    requires
        raw.len() == 16,
        0 <= from <= to <= 8,
    ensures
        colon_hex(groups_of(raw).subrange(from, to)) == shown_groups(raw, from, to),
{
    reveal_strlit(":");
    assert(":"@ =~= seq![':']);
    let a = groups_of(raw).subrange(from, to).map_values(|g: u16| text::hexadecimal(g as nat));
    let b = Seq::new(
        (to - from) as nat,
        |i: int|
            text::hexadecimal((256 * raw[2 * (from + i)] + raw[2 * (from + i) + 1]) as nat),
    );
    assert(a =~= b);
}

proof fn lemma_mapped(raw: Seq<u8>)
    requires
        raw.len() == 16,
    ensures
        is_mapped(groups_of(raw)) <==> stands_for_ipv4(raw),
{
    let g = groups_of(raw);
    assert(g[0] == 256 * raw[0] + raw[1]);
    assert(g[1] == 256 * raw[2] + raw[3]);
    assert(g[2] == 256 * raw[4] + raw[5]);
    assert(g[3] == 256 * raw[6] + raw[7]);
    assert(g[4] == 256 * raw[8] + raw[9]);
    assert(g[5] == 256 * raw[10] + raw[11]);
    if is_mapped(g) {
        assert forall|i: int| 0 <= i < 10 implies #[trigger] raw[i] == 0 by {
            let k = i / 2;
            assert(g[k] == 0);
            assert(g[k] == 256 * raw[2 * k] + raw[2 * k + 1]);
            assert(i == 2 * k || i == 2 * k + 1);
        }
    }
}

proof fn lemma_zeros_from(raw: Seq<u8>, t: int)
    requires
        raw.len() == 16,
        0 <= t <= 8,
    ensures
        ({
            let m = zeros_from(groups_of(raw), t);
            &&& t + m <= 8
            &&& zero_groups(raw, t, t + m)
            &&& t + m < 8 ==> !zero_groups(raw, t + m, t + m + 1)
        }),
    decreases 8 - t,
{
    let g = groups_of(raw);
    if t < 8 {
        assert(g[t] == 256 * raw[2 * t] + raw[2 * t + 1]);
        if g[t] == 0 {
            lemma_zeros_from(raw, t + 1);
        } else {
            assert(raw[2 * t] != 0 || raw[2 * t + 1] != 0);
        }
    }
}

/// An IPv6 address that stands for an IPv4 address is shown as such.
pub proof fn mapped_addresses_are_shown_as_ipv4(raw: Seq<u8>)
    requires
        raw.len() == 16,
        stands_for_ipv4(raw),
    ensures
        ipv6_text(raw) == "::ffff:"@ + text::decimal(raw[12] as nat) + "."@ + text::decimal(
            raw[13] as nat,
        ) + "."@ + text::decimal(raw[14] as nat) + "."@ + text::decimal(raw[15] as nat),
{
    lemma_mapped(raw);
    reveal_strlit(".");
    assert("."@ =~= seq!['.']);
    assert(ipv6_text(raw) =~= "::ffff:"@ + text::decimal(raw[12] as nat) + "."@ + text::decimal(
        raw[13] as nat,
    ) + "."@ + text::decimal(raw[14] as nat) + "."@ + text::decimal(raw[15] as nat));
}

/// Two colons stand for the first of the longest runs of two or more zero groups.
pub proof fn longest_zero_run_is_left_out(raw: Seq<u8>, s: int, l: int)
    requires
        raw.len() == 16,
        !stands_for_ipv4(raw),
        2 <= l,
        0 <= s <= s + l <= 8,
        zero_groups(raw, s, s + l),
        forall|t: int, m: int|
            0 <= t <= t + m <= 8 && m > 0 && #[trigger] zero_groups(raw, t, t + m) ==> m < l || m
                == l && s <= t,
    ensures
        ipv6_text(raw) == shown_groups(raw, 0, s) + "::"@ + shown_groups(raw, s + l, 8),
{
    let g = groups_of(raw);
    lemma_mapped(raw);
    lemma_zeros_from(raw, s);
    assert(zeros_from(g, s) == l) by {
        let m = zeros_from(g, s) as int;
        assert(zero_groups(raw, s, s + m));
        if m < l {
            assert(zero_groups(raw, s + m, s + m + 1));
        }
    }
    assert forall|t: int| 0 <= t < g.len() implies #[trigger] zeros_from(g, t) <= l && (t < s
        ==> zeros_from(g, t) < l) by {
        lemma_zeros_from(raw, t);
        let m = zeros_from(g, t) as int;
        assert(zero_groups(raw, t, t + m));
    }
    assert(is_longest(g, s));
    let chosen = longest_run(g);
    assert(is_longest(g, chosen));
    assert(chosen == s) by {
        if chosen < s {
            assert(zeros_from(g, chosen) < zeros_from(g, s));
        }
        if s < chosen {
            assert(zeros_from(g, s) < zeros_from(g, chosen));
        }
    }
    lemma_groups_shown(raw, 0, s);
    lemma_groups_shown(raw, s + l, 8);
    assert(g.subrange(0, s) =~= g.take(s));
    assert(g.subrange(s + l, 8) =~= g.skip(s + l));
}

/// Where no two zero groups are neighbours, every group is shown.
pub proof fn lone_zero_groups_are_shown(raw: Seq<u8>)
    requires
        raw.len() == 16,
        forall|t: int| 0 <= t <= 6 ==> !#[trigger] zero_groups(raw, t, t + 2),
    ensures
        ipv6_text(raw) == shown_groups(raw, 0, 8),
{
    let g = groups_of(raw);
    lemma_mapped(raw);
    assert(!stands_for_ipv4(raw)) by {
        if stands_for_ipv4(raw) {
            assert(zero_groups(raw, 0, 0int + 2));
        }
    }
    assert forall|t: int| 0 <= t <= 8 implies #[trigger] zeros_from(g, t) <= 1 by {
        lemma_zeros_from(raw, t);
        let m = zeros_from(g, t) as int;
        if m >= 2 {
            assert(zero_groups(raw, t, t + 2));
        }
    }
    let chosen = longest_run(g);
    assert(zeros_from(g, chosen) <= 1) by {
        if !(0 <= chosen < 8) {
            assert(zeros_from(g, chosen) == 0);
        }
    }
    lemma_groups_shown(raw, 0, 8);
    assert(g.subrange(0, 8) =~= g);
}

} // verus!
