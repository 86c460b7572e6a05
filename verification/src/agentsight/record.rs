//! Reading fixed-layout records out of raw bytes.
//!
//! The kernel side writes C structures. Where each field lies depends on the
//! compiler that built it, so the readers take the offsets from a layout.

use vstd::prelude::*;

use crate::text;
use crate::text::decode_lossy;

verus! {

/// Order of the bytes of a number.
#[derive(Clone, Copy, Debug, PartialEq, Eq, Structural)]
pub enum ByteOrder {
    Little,
    Big,
}

/// A field of `len` bytes at `offset`.
#[derive(Clone, Copy, Debug, PartialEq, Eq, Structural)]
pub struct ByteField {
    pub offset: usize,
    pub len: usize,
}

impl ByteField {
    /// The field lies within the first `size` bytes.
    pub open spec fn within(self, size: usize) -> bool {
        self.offset + self.len <= size
    }

    /// The bytes of the field.
    pub open spec fn of(self, data: Seq<u8>) -> Seq<u8> {
        data.subrange(self.offset as int, self.offset + self.len)
    }
}

/// `len` bytes at `offset` lie within the first `size` bytes.
pub(crate) fn fits_at(offset: usize, len: usize, size: usize) -> (r: bool)
    ensures
        r == (offset + len <= size),
{
    len <= size && offset <= size - len
}

/// The number whose least significant byte comes first.
pub open spec fn little_number(bytes: Seq<u8>) -> nat
    decreases bytes.len(),
{
    if bytes.len() == 0 {
        0
    } else {
        bytes[0] as nat + 256 * little_number(bytes.skip(1))
    }
}

/// The number that `bytes` spell in the given order.
pub open spec fn number(bytes: Seq<u8>, order: ByteOrder) -> nat {
    match order {
        ByteOrder::Little => little_number(bytes),
        ByteOrder::Big => little_number(bytes.reverse()),
    }
}

/// The number in the `width` bytes of `data` from `at`.
pub open spec fn number_at(data: Seq<u8>, at: int, width: int, order: ByteOrder) -> nat {
    number(data.subrange(at, at + width), order)
}

/// The two's complement reading of a 32-bit word.
pub open spec fn signed32(n: nat) -> int {
    if n < 0x8000_0000 {
        n as int
    } else {
        n - 0x1_0000_0000
    }
}

/// The bytes before the first zero, or all of them.
pub open spec fn until_zero(bytes: Seq<u8>) -> Seq<u8>
    decreases bytes.len(),
{
    if bytes.len() == 0 || bytes[0] == 0 {
        Seq::empty()
    } else {
        seq![bytes[0]] + until_zero(bytes.skip(1))
    }
}

/// The text of a zero-terminated field.
pub open spec fn field_text(bytes: Seq<u8>) -> Seq<char> {
    text::lossy_text(until_zero(bytes))
}

/// The spelled-out number of 2, 4 and 8 bytes.
proof fn lemma_little_number(s: Seq<u8>)
    ensures
        s.len() == 2 ==> little_number(s) == s[0] + 0x100 * s[1],
        s.len() == 4 ==> little_number(s) == s[0] + 0x100 * s[1] + 0x1_0000 * s[2] + 0x100_0000
            * s[3],
        s.len() == 8 ==> little_number(s) == little_number(s.take(4)) + 0x1_0000_0000
            * little_number(s.skip(4)),
{
    reveal_with_fuel(little_number, 9);
    if s.len() == 2 || s.len() == 4 || s.len() == 8 {
        assert(s.skip(1)[0] == s[1]);
    }
    if s.len() == 4 || s.len() == 8 {
        assert(s.skip(1).skip(1)[0] == s[2]);
        assert(s.skip(1).skip(1).skip(1)[0] == s[3]);
    }
    if s.len() == 8 {
        let t = s.take(4);
        assert(t.skip(1)[0] == s[1]);
        assert(t.skip(1).skip(1)[0] == s[2]);
        assert(t.skip(1).skip(1).skip(1)[0] == s[3]);
        assert(s.skip(1).skip(1).skip(1).skip(1) =~= s.skip(4));
    }
}

/// The number in four bytes is the sum of the bytes, each weighed by its place:
/// the first one least in little order, the last one in big order.
pub proof fn words_are_spelled_out(data: Seq<u8>, at: int)
    requires
        0 <= at,
        at + 4 <= data.len(),
    ensures
        number_at(data, at, 4, ByteOrder::Little) == data[at] + 0x100 * data[at + 1] + 0x1_0000
            * data[at + 2] + 0x100_0000 * data[at + 3],
        number_at(data, at, 4, ByteOrder::Big) == data[at + 3] + 0x100 * data[at + 2] + 0x1_0000
            * data[at + 1] + 0x100_0000 * data[at],
{
    let s = data.subrange(at, at + 4);
    lemma_little_number(s);
    lemma_little_number(s.reverse());
}

/// Eight bytes hold two words: the low one first in little order, last in big
/// order.
pub proof fn longs_are_two_words(data: Seq<u8>, at: int)
    requires
        0 <= at,
        at + 8 <= data.len(),
    ensures
        number_at(data, at, 8, ByteOrder::Little) == number_at(data, at, 4, ByteOrder::Little)
            + 0x1_0000_0000 * number_at(data, at + 4, 4, ByteOrder::Little),
        number_at(data, at, 8, ByteOrder::Big) == number_at(data, at + 4, 4, ByteOrder::Big)
            + 0x1_0000_0000 * number_at(data, at, 4, ByteOrder::Big),
{
    let s = data.subrange(at, at + 8);
    let t = s.reverse();
    lemma_little_number(s);
    lemma_little_number(t);
    assert(s.take(4) =~= data.subrange(at, at + 4));
    assert(s.skip(4) =~= data.subrange(at + 4, at + 8));
    assert(t.take(4) =~= data.subrange(at + 4, at + 8).reverse());
    assert(t.skip(4) =~= data.subrange(at, at + 4).reverse());
}

/// Reads a 16-bit number.
pub fn read_u16(data: &[u8], at: usize, order: ByteOrder) -> (r: u16)
    requires
        at + 2 <= data@.len(),
    ensures
        r == number_at(data@, at as int, 2, order),
        order is Little ==> r == data@[at as int] + 0x100 * data@[at + 1],
        order is Big ==> r == data@[at + 1] + 0x100 * data@[at as int],
{
    let a = data[at] as u16;
    let b = data[at + 1] as u16;
    proof {
        let s = data@.subrange(at as int, at + 2);
        lemma_little_number(s);
        lemma_little_number(s.reverse());
    }
    match order {
        ByteOrder::Little => a + 0x100 * b,
        ByteOrder::Big => b + 0x100 * a,
    }
}

/// Reads a 32-bit number.
pub fn read_u32(data: &[u8], at: usize, order: ByteOrder) -> (r: u32)
    requires
        at + 4 <= data@.len(),
    ensures
        r == number_at(data@, at as int, 4, order),
        order is Little ==> r == data@[at as int] + 0x100 * data@[at + 1] + 0x1_0000 * data@[at
            + 2] + 0x100_0000 * data@[at + 3],
        order is Big ==> r == data@[at + 3] + 0x100 * data@[at + 2] + 0x1_0000 * data@[at + 1]
            + 0x100_0000 * data@[at as int],
{
    let a = data[at] as u32;
    let b = data[at + 1] as u32;
    let c = data[at + 2] as u32;
    let d = data[at + 3] as u32;
    proof {
        let s = data@.subrange(at as int, at + 4);
        lemma_little_number(s);
        lemma_little_number(s.reverse());
    }
    match order {
        ByteOrder::Little => a + 0x100 * b + 0x1_0000 * c + 0x100_0000 * d,
        ByteOrder::Big => d + 0x100 * c + 0x1_0000 * b + 0x100_0000 * a,
    }
}

/// Reads a signed 32-bit number.
pub fn read_i32(data: &[u8], at: usize, order: ByteOrder) -> (r: i32)
    requires
        at + 4 <= data@.len(),
    ensures
        r == signed32(number_at(data@, at as int, 4, order)),
        (r - number_at(data@, at as int, 4, order)) % 0x1_0000_0000 == 0,
{
    let n: u32 = read_u32(data, at, order);
    if n < 0x8000_0000 {
        n as i32
    } else {
        (n as i64 - 0x1_0000_0000) as i32
    }
}

/// Reads a 64-bit number.
pub fn read_u64(data: &[u8], at: usize, order: ByteOrder) -> (r: u64)
    requires
        at + 8 <= data@.len(),
    ensures
        r == number_at(data@, at as int, 8, order),
        order is Little ==> r == number_at(data@, at as int, 4, order) + 0x1_0000_0000 * number_at(
            data@,
            at + 4,
            4,
            order,
        ),
        order is Big ==> r == number_at(data@, at + 4, 4, order) + 0x1_0000_0000 * number_at(
            data@,
            at as int,
            4,
            order,
        ),
{
    let size: usize = data.len();
    assert(at + 8 <= size);
    let first: u32 = read_u32(data, at, order);
    let second: u32 = read_u32(data, at + 4, order);
    proof {
        let s = data@.subrange(at as int, at + 8);
        let t = s.reverse();
        lemma_little_number(s);
        lemma_little_number(t);
        assert(s.take(4) =~= data@.subrange(at as int, at + 4));
        assert(s.skip(4) =~= data@.subrange(at + 4, at + 8));
        assert(t.take(4) =~= data@.subrange(at + 4, at + 8).reverse());
        assert(t.skip(4) =~= data@.subrange(at as int, at + 4).reverse());
    }
    match order {
        ByteOrder::Little => first as u64 + 0x1_0000_0000 * (second as u64),
        ByteOrder::Big => second as u64 + 0x1_0000_0000 * (first as u64),
    }
}

/// Copies the bytes of a field.
pub fn read_bytes(data: &[u8], field: ByteField) -> (r: Vec<u8>)
    requires
        field.offset + field.len <= data@.len(),
    ensures
        r@ == field.of(data@),
        r@ == data@.subrange(field.offset as int, field.offset + field.len),
{
    let size: usize = data.len();
    let mut r: Vec<u8> = Vec::new();
    let mut i: usize = 0;
    while i < field.len
        invariant
            field.offset + field.len <= size == data@.len(),
            i <= field.len,
            r@ == field.of(data@).take(i as int),
        decreases field.len - i,
    {
        r.push(data[field.offset + i]);
        i = i + 1;
        assert(r@ =~= field.of(data@).take(i as int));
    }
    r
}

proof fn lemma_until_zero_prefix(s: Seq<u8>, n: int)
    requires
        0 <= n <= s.len(),
        forall|i: int| 0 <= i < n ==> s[i] != 0,
        n == s.len() || s[n] == 0,
    ensures
        until_zero(s) == s.take(n),
    decreases s.len(),
{
    if n > 0 {
        lemma_until_zero_prefix(s.skip(1), n - 1);
        assert(seq![s[0]] + s.skip(1).take(n - 1) =~= s.take(n));
    } else {
        assert(s.take(0) =~= Seq::empty());
    }
}

/// Reads a zero-terminated text. Bytes that are not UTF-8 are replaced.
pub fn read_text(bytes: &Vec<u8>) -> (r: String)
    ensures
        r@ == field_text(bytes@),
        exists|n: int|
            {
                &&& 0 <= n <= bytes@.len()
                &&& forall|i: int| 0 <= i < n ==> bytes@[i] != 0
                &&& n == bytes@.len() || bytes@[n] == 0
                &&& r@ == text::lossy_text(#[trigger] bytes@.take(n))
            },
{
    let mut kept: Vec<u8> = Vec::new();
    let mut i: usize = 0;
    while i < bytes.len() && bytes[i] != 0
        invariant
            i <= bytes@.len(),
            kept@ == bytes@.take(i as int),
            forall|j: int| 0 <= j < i ==> bytes@[j] != 0,
        decreases bytes@.len() - i,
    {
        kept.push(bytes[i]);
        i = i + 1;
        assert(kept@ =~= bytes@.take(i as int));
    }
    proof {
        lemma_until_zero_prefix(bytes@, i as int);
    }
    decode_lossy(&kept)
}

/// A text without zero bytes that is stored in a longer field filled up with
/// zeros comes back whole.
pub proof fn stored_text_comes_back(text: Seq<u8>, fill: Seq<u8>)
    requires
        !text.contains(0),
        fill.len() > 0 ==> fill[0] == 0,
    ensures
        until_zero(text + fill) == text,
{
    let s = text + fill;
    assert forall|i: int| 0 <= i < text.len() implies s[i] != 0 by {
        assert(text.contains(text[i]));
    }
    lemma_until_zero_prefix(s, text.len() as int);
    assert(s.take(text.len() as int) =~= text);
}

// ---- merging per-CPU values -------------------------------------------------
/// The sum of `counts`.
pub open spec fn sum_of(counts: Seq<int>) -> int
    decreases counts.len(),
{
    if counts.len() == 0 {
        0
    } else {
        sum_of(counts.drop_last()) + counts.last()
    }
}

/// The sum of `counts`, held at `limit`.
pub open spec fn total(counts: Seq<int>, limit: int) -> int {
    if sum_of(counts) > limit {
        limit
    } else {
        sum_of(counts)
    }
}

/// `r` is the least time of `times` that is not 0, or 0 where all are.
pub open spec fn is_earliest(r: int, times: Seq<int>) -> bool {
    &&& forall|i: int| 0 <= i < times.len() && #[trigger] times[i] != 0 ==> r != 0 && r <= times[i]
    &&& r == 0 || times.contains(r)
}

/// `r` is the greatest time of `times`, or 0 where there is none.
pub open spec fn is_latest(r: int, times: Seq<int>) -> bool {
    &&& forall|i: int| 0 <= i < times.len() ==> #[trigger] times[i] <= r
    &&& r == 0 || times.contains(r)
}

/// The least time that is not 0, or 0 where all are.
pub open spec fn earliest(times: Seq<int>) -> int {
    choose|r: int| r >= 0 && is_earliest(r, times)
}

/// The greatest time, or 0 where there is none.
pub open spec fn latest(times: Seq<int>) -> int {
    choose|r: int| r >= 0 && is_latest(r, times)
}

/// `k` is the first place at which `times` holds `t`.
pub open spec fn first_at(k: int, times: Seq<int>, t: int) -> bool {
    &&& 0 <= k < times.len()
    &&& times[k] == t
    &&& forall|j: int| 0 <= j < k ==> #[trigger] times[j] != t
}

/// The first place at which `times` holds `t`.
pub open spec fn place_of(times: Seq<int>, t: int) -> int {
    choose|k: int| first_at(k, times, t)
}

/// What to do with one entry of an aggregation map.
#[derive(Clone, Debug)]
pub enum FlushStep<E> {
    /// The key is of another size: leave the entry.
    Skip,
    /// Nothing was counted: delete the entry.
    Delete,
    /// Send the event, then delete the entry.
    EmitAndDelete(E),
}

proof fn lemma_earliest_push(r: int, times: Seq<int>, t: int)
    requires
        is_earliest(r, times),
        r >= 0,
        t >= 0,
    ensures
        is_earliest(
            if r == 0 || (t != 0 && t < r) {
                t
            } else {
                r
            },
            times.push(t),
        ),
{
    let next = times.push(t);
    assert(next[times.len() as int] == t);
    assert forall|i: int| 0 <= i < times.len() implies next[i] == #[trigger] times[i] by {}
    if times.contains(r) {
        let i = choose|i: int| 0 <= i < times.len() && times[i] == r;
        assert(next[i] == r);
    }
}

proof fn lemma_latest_push(r: int, times: Seq<int>, t: int)
    requires
        is_latest(r, times),
        r >= 0,
        t >= 0,
    ensures
        is_latest(
            if t > r {
                t
            } else {
                r
            },
            times.push(t),
        ),
{
    let next = times.push(t);
    assert(next[times.len() as int] == t);
    assert forall|i: int| 0 <= i < times.len() implies next[i] == #[trigger] times[i] by {}
    if times.contains(r) {
        let i = choose|i: int| 0 <= i < times.len() && times[i] == r;
        assert(next[i] == r);
    }
}

proof fn lemma_sum_push(counts: Seq<int>, c: int)
    ensures
        sum_of(counts.push(c)) == sum_of(counts) + c,
{
    assert(counts.push(c).drop_last() =~= counts);
}

/// There is one earliest time.
pub proof fn lemma_earliest_is(r: int, times: Seq<int>)
    requires
        r >= 0,
        is_earliest(r, times),
    ensures
        earliest(times) == r,
{
    let e = earliest(times);
    assert(e >= 0 && is_earliest(e, times));
    if times.contains(r) {
        let i = choose|i: int| 0 <= i < times.len() && times[i] == r;
        assert(times[i] == r);
    }
    if times.contains(e) {
        let i = choose|i: int| 0 <= i < times.len() && times[i] == e;
        assert(times[i] == e);
    }
}

/// There is one latest time.
pub proof fn lemma_latest_is(r: int, times: Seq<int>)
    requires
        r >= 0,
        is_latest(r, times),
    ensures
        latest(times) == r,
{
    let e = latest(times);
    assert(e >= 0 && is_latest(e, times));
    if times.contains(r) {
        let i = choose|i: int| 0 <= i < times.len() && times[i] == r;
        assert(times[i] == r);
    }
    if times.contains(e) {
        let i = choose|i: int| 0 <= i < times.len() && times[i] == e;
        assert(times[i] == e);
    }
}

/// There is one first place.
pub proof fn lemma_place_is(k: int, times: Seq<int>, t: int)
    requires
        first_at(k, times, t),
    ensures
        place_of(times, t) == k,
{
    let p = place_of(times, t);
    assert(first_at(p, times, t));
    if p < k {
        assert(times[p] != t);
    }
    if k < p {
        assert(times[k] != t);
    }
}

/// The running count and time span of the values read so far.
pub(crate) struct Merge {
    pub count: u64,
    pub first_ts: u64,
    pub last_ts: u64,
}

impl Merge {
    /// The state after values with these counts and times.
    pub(crate) open spec fn sums(
        self,
        counts: Seq<int>,
        firsts: Seq<int>,
        lasts: Seq<int>,
        limit: u64,
    ) -> bool {
        &&& sum_of(counts) >= 0
        &&& self.count == total(counts, limit as int)
        &&& is_earliest(self.first_ts as int, firsts)
        &&& is_latest(self.last_ts as int, lasts)
    }

    pub(crate) fn new() -> (r: Self)
        ensures
            r.first_ts == 0,
            r.last_ts == 0,
            r.count == 0,
            forall|limit: u64| #[trigger]
                r.sums(Seq::empty(), Seq::empty(), Seq::empty(), limit),
    {
        Merge { count: 0, first_ts: 0, last_ts: 0 }
    }

    pub(crate) fn take_in(
        &mut self,
        count: u64,
        first_ts: u64,
        last_ts: u64,
        limit: u64,
        Ghost(counts): Ghost<Seq<int>>,
        Ghost(firsts): Ghost<Seq<int>>,
        Ghost(lasts): Ghost<Seq<int>>,
    )
        requires
            count <= limit,
            old(self).sums(counts, firsts, lasts, limit),
        ensures
            final(self).sums(
                counts.push(count as int),
                firsts.push(first_ts as int),
                lasts.push(last_ts as int),
                limit,
            ),
            final(self).last_ts == (if last_ts > old(self).last_ts {
                last_ts
            } else {
                old(self).last_ts
            }),
            count > 0 ==> final(self).count > 0,
    {
        proof {
            lemma_sum_push(counts, count as int);
            lemma_earliest_push(self.first_ts as int, firsts, first_ts as int);
            lemma_latest_push(self.last_ts as int, lasts, last_ts as int);
        }
        if self.count > limit - count {
            self.count = limit;
        } else {
            self.count = self.count + count;
        }
        if self.first_ts == 0 || (first_ts != 0 && first_ts < self.first_ts) {
            self.first_ts = first_ts;
        }
        if last_ts > self.last_ts {
            self.last_ts = last_ts;
        }
    }
}

/// The raw values of all CPUs.
pub open spec fn raw_values(values: Seq<Vec<u8>>) -> Seq<Seq<u8>> {
    values.map_values(|v: Vec<u8>| v@)
}

/// One more value is kept or left out.
pub proof fn lemma_filter_push(s: Seq<Seq<u8>>, i: int, keep: spec_fn(Seq<u8>) -> bool)
    requires
        0 <= i < s.len(),
    ensures
        s.take(i + 1).filter(keep) == (if keep(s[i]) {
            s.take(i).filter(keep).push(s[i])
        } else {
            s.take(i).filter(keep)
        }),
{
    reveal(Seq::filter);
    assert(s.take(i + 1).drop_last() =~= s.take(i));
}

/// Totals add up: the sum of two runs of counts is the sum of their sums, and
/// that of a single count is the count.
pub proof fn totals_add_up(a: Seq<int>, b: Seq<int>, c: int)
    ensures
        sum_of(a + b) == sum_of(a) + sum_of(b),
        sum_of(seq![c]) == c,
        sum_of(Seq::empty()) == 0,
    decreases b.len(),
{
    assert(seq![c].drop_last() =~= Seq::empty());
    assert(sum_of(Seq::empty()) == 0);
    if b.len() > 0 {
        totals_add_up(a, b.drop_last(), c);
        assert((a + b).drop_last() =~= a + b.drop_last());
    } else {
        assert(a + b =~= a);
    }
}

/// A total never goes beyond its limit, and is the sum where that does not.
pub proof fn totals_are_limited(counts: Seq<int>, limit: int)
    ensures
        sum_of(counts) <= limit ==> total(counts, limit) == sum_of(counts),
        sum_of(counts) > limit ==> total(counts, limit) == limit,
{
}

/// The earliest of some times is one of them, not 0, and no later than any that
/// is not 0; it is 0 where all are. The latest is one of them and no earlier
/// than any; it is 0 where there are none.
pub proof fn earliest_and_latest(times: Seq<int>)
    requires
        forall|i: int| 0 <= i < times.len() ==> #[trigger] times[i] >= 0,
    ensures
        forall|i: int|
            0 <= i < times.len() && #[trigger] times[i] != 0 ==> 0 < earliest(times) <= times[i],
        earliest(times) != 0 ==> times.contains(earliest(times)),
        forall|i: int| 0 <= i < times.len() ==> #[trigger] times[i] <= latest(times),
        latest(times) != 0 ==> times.contains(latest(times)),
        earliest(times) >= 0,
        latest(times) >= 0,
{
    let (a, b) = lemma_bounds_exist(times);
    lemma_earliest_is(a, times);
    lemma_latest_is(b, times);
}

proof fn lemma_bounds_exist(times: Seq<int>) -> (r: (int, int))
    requires
        forall|i: int| 0 <= i < times.len() ==> #[trigger] times[i] >= 0,
    ensures
        r.0 >= 0,
        r.1 >= 0,
        is_earliest(r.0, times),
        is_latest(r.1, times),
    decreases times.len(),
{
    if times.len() == 0 {
        (0, 0)
    } else {
        let rest = times.drop_last();
        assert forall|i: int| 0 <= i < rest.len() implies #[trigger] rest[i] >= 0 by {
            assert(times[i] >= 0);
        }
        let (a, b) = lemma_bounds_exist(rest);
        let t = times.last();
        assert(times[times.len() - 1] >= 0);
        lemma_earliest_push(a, rest, t);
        lemma_latest_push(b, rest, t);
        assert(rest.push(t) =~= times);
        (
            if a == 0 || (t != 0 && t < a) {
                t
            } else {
                a
            },
            if t > b {
                t
            } else {
                b
            },
        )
    }
}

/// A value is kept where one meets the condition.
pub proof fn lemma_filter_some(s: Seq<Seq<u8>>, keep: spec_fn(Seq<u8>) -> bool)
    ensures
        s.filter(keep).len() > 0 <==> exists|i: int| 0 <= i < s.len() && keep(#[trigger] s[i]),
    decreases s.len(),
{
    reveal(Seq::filter);
    if s.len() > 0 {
        let rest = s.drop_last();
        lemma_filter_some(rest, keep);
        if exists|i: int| 0 <= i < rest.len() && keep(#[trigger] rest[i]) {
            let i = choose|i: int| 0 <= i < rest.len() && keep(#[trigger] rest[i]);
            assert(keep(s[i]));
        }
        if exists|i: int| 0 <= i < s.len() && keep(#[trigger] s[i]) {
            let i = choose|i: int| 0 <= i < s.len() && keep(#[trigger] s[i]);
            if i < rest.len() {
                assert(keep(rest[i]));
            }
        }
        if keep(s.last()) {
            assert(keep(s[s.len() - 1]));
        }
    }
}

} // verus!
