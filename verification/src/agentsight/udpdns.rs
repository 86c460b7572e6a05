//! Domain names of DNS queries.
//!
//! The kernel side captures the payload of packets to port 53; the query name
//! is read out of it here.

use vstd::prelude::*;
use vstd::utf8::*;

use super::record;
use super::record::{fits_at, read_bytes, read_text, read_u32, read_u64, ByteField, ByteOrder};
use crate::text;

verus! {

/// DNS header length in bytes.
pub const DNS_HEADER_LEN: usize = 12;

/// Longest domain name.
pub const MAX_DOMAIN_LEN: usize = 253;

/// Longest label.
pub const MAX_LABEL_LEN: usize = 63;

/// The labels that `data` holds from `off`: each is a length byte and as many
/// bytes. They end at the root label, at a length that no label has (a
/// compression pointer among them), and where the bytes run out.
pub open spec fn labels(data: Seq<u8>, off: int) -> Seq<Seq<u8>>
    decreases data.len() - off,
{
    if off < 0 || off >= data.len() || data[off] == 0 || data[off] > MAX_LABEL_LEN || off + 1
        + data[off] > data.len() {
        Seq::empty()
    } else {
        let next = off + 1 + data[off];
        seq![data.subrange(off + 1, next)] + labels(data, next)
    }
}

/// A label, each byte taken as the character of that number.
pub open spec fn label_text(label: Seq<u8>) -> Seq<char> {
    label.map_values(|b: u8| b as char)
}

/// The labels with dots between them.
pub open spec fn dotted(labels: Seq<Seq<u8>>) -> Seq<char> {
    text::joined(labels.map_values(|l: Seq<u8>| label_text(l)), seq!['.'])
}

/// The name is longer in UTF-8 than a domain name may be.
pub open spec fn too_long(name: Seq<char>) -> bool {
    encode_utf8(name).len() > MAX_DOMAIN_LEN
}

/// `k` of the labels are read: all, or those before the one that would make
/// the name too long.
pub open spec fn reads(labels: Seq<Seq<u8>>, k: int) -> bool {
    &&& 0 <= k <= labels.len()
    &&& forall|j: int| 0 <= j <= k ==> !too_long(#[trigger] dotted(labels.take(j)))
    &&& k == labels.len() || too_long(dotted(labels.take(k + 1)))
}

/// What `parse_dns_qname` says of the first `len` bytes of a payload.
pub open spec fn is_qname(payload: Seq<u8>, len: int, r: Option<Seq<char>>) -> bool {
    let all = labels(payload.take(len), DNS_HEADER_LEN as int);
    if len < DNS_HEADER_LEN + 2 || all.len() == 0 {
        r is None
    } else {
        r is Some && exists|k: int| #[trigger] reads(all, k) && r->Some_0 == dotted(all.take(k))
    }
}

proof fn lemma_dotted_push(ls: Seq<Seq<u8>>, l: Seq<u8>)
    ensures
        dotted(ls.push(l)) == (if ls.len() == 0 {
            label_text(l)
        } else {
            dotted(ls).push('.') + label_text(l)
        }),
{
    let f = |l: Seq<u8>| label_text(l);
    let parts = ls.push(l).map_values(f);
    assert(parts.drop_last() =~= ls.map_values(f));
    assert(parts.last() == label_text(l));
    assert(dotted(ls) + seq!['.'] =~= dotted(ls).push('.'));
}

proof fn lemma_labels_at(data: Seq<u8>, from: int, k: int, off: int)
    requires
        0 <= k <= labels(data, from).len(),
        0 <= from,
        label_end(data, from, k) == off,
    ensures
        labels(data, from) == labels(data, from).take(k) + labels(data, off),
        0 <= off,
    decreases k,
{
    let all = labels(data, from);
    if k == 0 {
        assert(all =~= all.take(0) + all);
    } else {
        let next = from + 1 + data[from];
        lemma_labels_at(data, next, k - 1, off);
        assert(all =~= all.take(k) + labels(data, off));
    }
}

/// Where the label `k` behind `from` begins.
spec fn label_end(data: Seq<u8>, from: int, k: int) -> int
    decreases k,
{
    if k <= 0 {
        from
    } else {
        label_end(data, from + 1 + data[from], k - 1)
    }
}

proof fn lemma_label_end_step(data: Seq<u8>, from: int, k: int)
    requires
        0 <= k,
    ensures
        label_end(data, from, k + 1) == label_end(data, from, k) + 1 + data[label_end(
            data,
            from,
            k,
        )],
    decreases k,
{
    reveal_with_fuel(label_end, 2);
    if k > 0 {
        lemma_label_end_step(data, from + 1 + data[from], k - 1);
    }
}

proof fn lemma_utf8_of_bytes(label: Seq<u8>)
    ensures
        encode_utf8(label_text(label)).len() <= 2 * label.len(),
    decreases label.len(),
{
    let t = label_text(label);
    if label.len() > 0 {
        lemma_utf8_of_bytes(label.drop_first());
        assert(t.drop_first() =~= label_text(label.drop_first()));
        assert((t[0] as u32) < 0x100);
        assert(encode_scalar(t[0] as u32).len() <= 2);
    }
}

/// A dotted name begins with its first label; a dot follows where there is more.
proof fn lemma_first_label(ls: Seq<Seq<u8>>)
    requires
        ls.len() > 0,
    ensures
        dotted(ls).len() >= ls[0].len(),
        forall|i: int| 0 <= i < ls[0].len() ==> #[trigger] dotted(ls)[i] == ls[0][i] as char,
        dotted(ls).len() > ls[0].len() ==> dotted(ls)[ls[0].len() as int] == '.',
{
    let parts = ls.map_values(|l: Seq<u8>| label_text(l));
    text::list_begins_with_its_first(parts, seq!['.']);
    assert(parts[0] == label_text(ls[0]));
}

/// Reads the query name of a DNS payload as a dotted domain name. `None` where
/// the payload is too short to hold one or no label can be read. A name ends
/// before the label that would make it longer than a domain name may be.
pub fn parse_dns_qname(payload: &Vec<u8>, payload_len: usize) -> (r: Option<String>)
    requires
        payload_len <= payload@.len(),
    ensures
        is_qname(
            payload@,
            payload_len as int,
            match r {
                Some(s) => Some(s@),
                None => None,
            },
        ),
        r matches Some(s) ==> encode_utf8(s@).len() <= MAX_DOMAIN_LEN,
        r is Some <==> payload_len >= 14 && 0 < payload@[12] <= 63 && 13 + payload@[12]
            <= payload_len,
        r matches Some(s) ==> {
            let n = payload@[12] as int;
            &&& encode_utf8(s@).len() <= 253
            &&& s@.len() >= n
            &&& forall|i: int| 0 <= i < n ==> #[trigger] s@[i] as int == payload@[13 + i]
            &&& s@.len() > n ==> s@[n] == '.'
        },
{
    if payload_len < DNS_HEADER_LEN + 2 {
        return None;
    }
    let ghost data = payload@.take(payload_len as int);
    let ghost all = labels(data, DNS_HEADER_LEN as int);
    let mut off: usize = DNS_HEADER_LEN;
    let mut domain = String::new();
    let ghost mut k: int = 0;
    proof {
        assert(all.take(0) =~= Seq::empty());
        assert(!too_long(Seq::<char>::empty())) by {
            assert(encode_utf8(Seq::empty()) =~= Seq::<u8>::empty());
        }
        assert(dotted(all.take(0)) =~= Seq::empty());
    }
    loop
        invariant
            forall|j: int| 0 <= j <= k ==> !too_long(#[trigger] dotted(all.take(j))),
            payload_len <= payload@.len(),
            data == payload@.take(payload_len as int),
            all == labels(data, DNS_HEADER_LEN as int),
            DNS_HEADER_LEN <= off,
            0 <= k <= all.len(),
            label_end(data, DNS_HEADER_LEN as int, k) == off,
            domain@ == dotted(all.take(k)),
            k == 0 <==> domain@.len() == 0,
        ensures
            reads(all, k),
            all.len() > 0 ==> k > 0,
        decreases payload_len - off,
    {
        proof {
            lemma_labels_at(data, DNS_HEADER_LEN as int, k, off as int);
        }
        if off >= payload_len {
            break;
        }
        let label_len: usize = payload[off] as usize;
        if label_len == 0 || label_len > MAX_LABEL_LEN {
            break;
        }
        if label_len > payload_len - off - 1 {
            break;
        }
        let ghost here = labels(data, off as int);
        let ghost label = data.subrange(off + 1, off + 1 + label_len);
        proof {
            assert(all[k] == here[0]);
            assert(all[k] == label);
            assert(all.take(k + 1) =~= all.take(k).push(label));
            lemma_dotted_push(all.take(k), label);
            lemma_label_end_step(data, DNS_HEADER_LEN as int, k);
        }
        let mut longer = domain.clone();
        if domain.unicode_len() != 0 {
            longer.push('.');
        }
        let ghost start = longer@;
        let mut i: usize = 0;
        assert(start + label_text(label).take(0) =~= start);
        while i < label_len
            invariant
                i <= label_len,
                off + 1 + label_len <= payload_len <= payload@.len(),
                data == payload@.take(payload_len as int),
                label == data.subrange(off + 1, off + 1 + label_len),
                longer@ == start + label_text(label).take(i as int),
            decreases label_len - i,
        {
            longer.push(payload[off + 1 + i] as char);
            i = i + 1;
            assert(longer@ =~= start + label_text(label).take(i as int));
        }
        proof {
            assert(label_text(label).take(i as int) =~= label_text(label));
            if k == 0 {
                lemma_utf8_of_bytes(label);
                assert(start + label_text(label) =~= label_text(label));
            }
        }
        let size: usize = longer.as_str().as_bytes().len();
        if size > MAX_DOMAIN_LEN {
            break;
        }
        domain = longer;
        off = off + 1 + label_len;
        proof {
            k = k + 1;
        }
    }
    if domain.unicode_len() == 0 {
        None
    } else {
        proof {
            assert(reads(all, k));
            lemma_first_label(all.take(k));
            assert(all.take(k)[0] == data.subrange(13, 13 + data[12]));
            assert forall|i: int| 0 <= i < data[12] implies #[trigger] domain@[i] as int
                == payload@[13 + i] by {
                assert(domain@[i] == data.subrange(13, 13 + data[12])[i] as char);
            }
        }
        Some(domain)
    }
}

// ---- the name that was asked for comes out ------------------------------------
/// A label of the wire format: a length byte and the bytes.
pub open spec fn wire_label(label: Seq<u8>) -> Seq<u8> {
    seq![label.len() as u8] + label
}

/// A name in the wire format: its labels, then the root label.
pub open spec fn wire_name(ls: Seq<Seq<u8>>) -> Seq<u8>
    decreases ls.len(),
{
    if ls.len() == 0 {
        seq![0u8]
    } else {
        wire_label(ls[0]) + wire_name(ls.skip(1))
    }
}

/// Every label has a length that a label may have.
pub open spec fn proper_labels(ls: Seq<Seq<u8>>) -> bool {
    forall|i: int| 0 <= i < ls.len() ==> 0 < (#[trigger] ls[i]).len() <= MAX_LABEL_LEN
}

proof fn lemma_wire_name_read(head: Seq<u8>, ls: Seq<Seq<u8>>, tail: Seq<u8>)
    requires
        proper_labels(ls),
    ensures
        labels(head + wire_name(ls) + tail, head.len() as int) == ls,
    decreases ls.len(),
{
    let data = head + wire_name(ls) + tail;
    let off = head.len() as int;
    if ls.len() == 0 {
        assert(data[off] == 0);
        assert(ls =~= Seq::empty());
    } else {
        let l = ls[0];
        let rest = ls.skip(1);
        assert(data[off] == l.len() as u8);
        assert forall|i: int| 0 <= i < rest.len() implies 0 < (#[trigger] rest[i]).len()
            <= MAX_LABEL_LEN by {
            assert(rest[i] == ls[i + 1]);
        }
        lemma_wire_name_read(head + wire_label(l), rest, tail);
        assert(data =~= head + wire_label(l) + wire_name(rest) + tail);
        assert(data.subrange(off + 1, off + 1 + l.len()) =~= l);
        assert(seq![l] + rest =~= ls);
    }
}

proof fn lemma_utf8_grows(a: Seq<char>, b: Seq<char>)
    ensures
        encode_utf8(a).len() <= encode_utf8(a + b).len(),
    decreases a.len(),
{
    if a.len() > 0 {
        lemma_utf8_grows(a.drop_first(), b);
        assert((a + b).drop_first() =~= a.drop_first() + b);
    }
}

proof fn lemma_dotted_grows(ls: Seq<Seq<u8>>, j: int)
    requires
        0 <= j <= ls.len(),
        too_long(dotted(ls.take(j))),
    ensures
        too_long(dotted(ls)),
    decreases ls.len() - j,
{
    if j < ls.len() {
        let a = dotted(ls.take(j));
        let l = label_text(ls[j]);
        assert(ls.take(j + 1) =~= ls.take(j).push(ls[j]));
        lemma_dotted_push(ls.take(j), ls[j]);
        if j == 0 {
            assert(a =~= Seq::empty());
            lemma_utf8_grows(a, l);
            assert(a + l =~= l);
        } else {
            lemma_utf8_grows(a, seq!['.'] + l);
            assert(a + (seq!['.'] + l) =~= a.push('.') + l);
        }
        lemma_dotted_grows(ls, j + 1);
    } else {
        assert(ls.take(j) =~= ls);
    }
}

/// A query name that was written in the wire format is read back as its labels
/// with dots between them, whatever header stands before it and whatever
/// follows it.
pub proof fn written_name_is_read_back(
    header: Seq<u8>,
    ls: Seq<Seq<u8>>,
    tail: Seq<u8>,
    r: Option<Seq<char>>,
)
    requires
        header.len() == DNS_HEADER_LEN,
        ls.len() > 0,
        proper_labels(ls),
        !too_long(dotted(ls)),
        is_qname(
            header + wire_name(ls) + tail,
            (header + wire_name(ls) + tail).len() as int,
            r,
        ),
    ensures
        r == Some(dotted(ls)),
{
    let payload = header + wire_name(ls) + tail;
    assert(payload.take(payload.len() as int) =~= payload);
    lemma_wire_name_read(header, ls, tail);
    assert(wire_name(ls).len() >= 2);
    let k = choose|k: int| #[trigger] reads(ls, k) && r->Some_0 == dotted(ls.take(k));
    if k < ls.len() {
        lemma_dotted_grows(ls, k + 1);
    }
    assert(ls.take(k) =~= ls);
}

/// A name that was written behind a header of 12 bytes is read back as its labels
/// with dots between them, whatever follows it: labels of 1 to 63 bytes, which come
/// to 253 bytes at most with the dots.
pub proof fn queries_are_read_back(
    header: Seq<u8>,
    ls: Seq<Seq<u8>>,
    tail: Seq<u8>,
    r: Option<Seq<char>>,
)
    requires
        header.len() == 12,
        ls.len() > 0,
        forall|i: int| 0 <= i < ls.len() ==> 1 <= (#[trigger] ls[i]).len() <= 63,
        encode_utf8(
            text::joined(
                Seq::new(ls.len(), |i: int| Seq::new(ls[i].len(), |j: int| ls[i][j] as char)),
                "."@,
            ),
        ).len() <= 253,
        is_qname(
            header + wire_name(ls) + tail,
            (header + wire_name(ls) + tail).len() as int,
            r,
        ),
    ensures
        r == Some(
            text::joined(
                Seq::new(ls.len(), |i: int| Seq::new(ls[i].len(), |j: int| ls[i][j] as char)),
                "."@,
            ),
        ),
{
    reveal_strlit(".");
    assert("."@ =~= seq!['.']);
    let spelled = Seq::new(ls.len(), |i: int| Seq::new(ls[i].len(), |j: int| ls[i][j] as char));
    let parts = ls.map_values(|l: Seq<u8>| label_text(l));
    assert forall|i: int| 0 <= i < ls.len() implies #[trigger] spelled[i] == parts[i] by {
        assert(spelled[i] =~= label_text(ls[i]));
    }
    assert(spelled =~= parts);
    written_name_is_read_back(header, ls, tail, r);
}

/// Names that the bytes of the wire format are made of: each label behind a byte
/// with its length, and a zero byte at the end.
pub proof fn wire_names_end_in_zero(ls: Seq<Seq<u8>>)
    requires
        forall|i: int| 0 <= i < ls.len() ==> 1 <= (#[trigger] ls[i]).len() <= 63,
    ensures
        ls.len() == 0 ==> wire_name(ls) == seq![0u8],
        ls.len() > 0 ==> wire_name(ls)[0] == ls[0].len() && wire_name(ls).subrange(
            1,
            1 + ls[0].len() as int,
        ) == ls[0] && wire_name(ls).skip(1 + ls[0].len() as int) == wire_name(ls.skip(1)),
{
    if ls.len() > 0 {
        assert(wire_name(ls).subrange(1, 1 + ls[0].len() as int) =~= ls[0]);
        assert(wire_name(ls).skip(1 + ls[0].len() as int) =~= wire_name(ls.skip(1)));
    }
}

// ---- events -------------------------------------------------------------------
/// Where the fields of a raw DNS record lie.
#[derive(Clone, Copy, Debug)]
pub struct UdpDnsLayout {
    pub order: ByteOrder,
    pub size: usize,
    pub pid: usize,
    pub tid: usize,
    pub uid: usize,
    pub timestamp_ns: usize,
    pub cgroup_id: usize,
    pub comm: ByteField,
    pub payload_len: usize,
    pub payload: ByteField,
}

impl UdpDnsLayout {
    /// Every field lies within the record.
    pub open spec fn wf(self) -> bool {
        &&& self.pid + 4 <= self.size
        &&& self.tid + 4 <= self.size
        &&& self.uid + 4 <= self.size
        &&& self.timestamp_ns + 8 <= self.size
        &&& self.cgroup_id + 8 <= self.size
        &&& self.comm.within(self.size)
        &&& self.payload_len + 4 <= self.size
        &&& self.payload.within(self.size)
    }

    /// Tells whether every field lies within its bytes.
    pub fn fits(&self) -> (r: bool)
        ensures
            r == self.wf(),
            r <==> {
                &&& self.pid + 4 <= self.size
                &&& self.tid + 4 <= self.size
                &&& self.uid + 4 <= self.size
                &&& self.timestamp_ns + 8 <= self.size
                &&& self.cgroup_id + 8 <= self.size
                &&& self.comm.offset + self.comm.len <= self.size
                &&& self.payload_len + 4 <= self.size
                &&& self.payload.offset + self.payload.len <= self.size
            },
    {
        fits_at(self.pid, 4, self.size)
            && fits_at(self.tid, 4, self.size)
            && fits_at(self.uid, 4, self.size)
            && fits_at(self.timestamp_ns, 8, self.size)
            && fits_at(self.cgroup_id, 8, self.size)
            && fits_at(
            self.comm.offset,
            self.comm.len,
            self.size,
        )
            && fits_at(self.payload_len, 4, self.size)
            && fits_at(
            self.payload.offset,
            self.payload.len,
            self.size,
        )
    }

    /// The 32-bit number at `at`.
    pub open spec fn word(self, data: Seq<u8>, at: usize) -> nat {
        record::number_at(data, at as int, 4, self.order)
    }

    /// The 64-bit number at `at`.
    pub open spec fn long(self, data: Seq<u8>, at: usize) -> nat {
        record::number_at(data, at as int, 8, self.order)
    }
}

/// A DNS record as the probe wrote it.
#[derive(Clone, Debug)]
pub struct RawUdpDnsEvent {
    pub pid: u32,
    pub tid: u32,
    pub uid: u32,
    pub timestamp_ns: u64,
    pub cgroup_id: u64,
    pub comm: Vec<u8>,
    pub payload_len: u32,
    pub payload: Vec<u8>,
}

impl RawUdpDnsEvent {
    /// The record that `data` holds.
    pub open spec fn read_from(self, data: Seq<u8>, l: UdpDnsLayout) -> bool {
        &&& self.pid == l.word(data, l.pid)
        &&& self.tid == l.word(data, l.tid)
        &&& self.uid == l.word(data, l.uid)
        &&& self.timestamp_ns == l.long(data, l.timestamp_ns)
        &&& self.cgroup_id == l.long(data, l.cgroup_id)
        &&& self.comm@ == l.comm.of(data)
        &&& self.payload_len == l.word(data, l.payload_len)
        &&& self.payload@ == l.payload.of(data)
    }

    /// How much of the payload counts: its stated length, but no more than
    /// there is.
    pub open spec fn used(self) -> int {
        if self.payload_len < self.payload@.len() {
            self.payload_len as int
        } else {
            self.payload@.len() as int
        }
    }

    /// Reads a record; longer data is cut off.
    pub fn from_bytes(data: &[u8], layout: &UdpDnsLayout) -> (r: Option<Self>)
        requires
            layout.wf(),
        ensures
            r is None <==> data@.len() < layout.size,
            r matches Some(raw) ==> raw.read_from(data@, *layout),
    {
        if data.len() < layout.size {
            return None;
        }
        let order = layout.order;
        Some(
            RawUdpDnsEvent {
                pid: read_u32(data, layout.pid, order),
                tid: read_u32(data, layout.tid, order),
                uid: read_u32(data, layout.uid, order),
                timestamp_ns: read_u64(data, layout.timestamp_ns, order),
                cgroup_id: read_u64(data, layout.cgroup_id, order),
                comm: read_bytes(data, layout.comm),
                payload_len: read_u32(data, layout.payload_len, order),
                payload: read_bytes(data, layout.payload),
            },
        )
    }
}

/// User-space DNS event.
#[derive(Clone, Debug)]
pub struct UdpDnsEvent {
    pub pid: u32,
    pub tid: u32,
    pub uid: u32,
    /// Unix epoch nanoseconds.
    pub timestamp_ns: u64,
    /// Not 0 where the event was admitted by the cgroup filter, 0 where it was
    /// admitted because its process is not traced yet.
    pub cgroup_id: u64,
    pub comm: String,
    pub domain: String,
}

impl UdpDnsEvent {
    /// The event of a record, seen at `unix_ns`, but for the domain.
    pub open spec fn shows(self, raw: RawUdpDnsEvent, unix_ns: u64) -> bool {
        &&& self.pid == raw.pid
        &&& self.tid == raw.tid
        &&& self.uid == raw.uid
        &&& self.timestamp_ns == unix_ns
        &&& self.cgroup_id == raw.cgroup_id
        &&& self.comm@ == record::field_text(raw.comm@)
    }

    /// What ring buffer data becomes: nothing where it is too short or its
    /// payload holds no query name, else the event of the record it holds.
    pub open spec fn parsed<F: Fn(u64) -> u64>(
        data: Seq<u8>,
        l: UdpDnsLayout,
        clock: F,
        r: Option<Self>,
    ) -> bool {
        &&& data.len() < l.size ==> r is None
        &&& data.len() >= l.size ==> exists|raw: RawUdpDnsEvent|
            {
                &&& #[trigger] raw.read_from(data, l)
                &&& is_qname(
                    raw.payload@,
                    raw.used(),
                    match r {
                        Some(e) => Some(e.domain@),
                        None => None,
                    },
                )
                &&& r matches Some(e) ==> e.shows(raw, e.timestamp_ns) && call_ensures(
                    clock,
                    (raw.timestamp_ns,),
                    e.timestamp_ns,
                )
            }
    }

    /// Turns a record into an event, seen at `unix_ns`. `None` where its
    /// payload holds no query name.
    pub fn from_raw(raw: &RawUdpDnsEvent, unix_ns: u64) -> (r: Option<Self>)
        ensures
            is_qname(
                raw.payload@,
                raw.used(),
                match r {
                    Some(e) => Some(e.domain@),
                    None => None,
                },
            ),
            r matches Some(e) ==> e.shows(*raw, unix_ns),
            r matches Some(e) ==> {
                &&& e.pid == raw.pid && e.tid == raw.tid && e.uid == raw.uid
                &&& e.timestamp_ns == unix_ns
                &&& e.cgroup_id == raw.cgroup_id
                &&& e.comm@ == record::field_text(raw.comm@)
            },
            is_qname(
                raw.payload@,
                if raw.payload_len <= raw.payload@.len() {
                    raw.payload_len as int
                } else {
                    raw.payload@.len() as int
                },
                match r {
                    Some(e) => Some(e.domain@),
                    None => None,
                },
            ),
    {
        let stated: u32 = raw.payload_len;
        let held: usize = raw.payload.len();
        let used: usize = if (stated as u64) < held as u64 {
            stated as usize
        } else {
            held
        };
        match parse_dns_qname(&raw.payload, used) {
            None => None,
            Some(domain) => Some(
                UdpDnsEvent {
                    pid: raw.pid,
                    tid: raw.tid,
                    uid: raw.uid,
                    timestamp_ns: unix_ns,
                    cgroup_id: raw.cgroup_id,
                    comm: read_text(&raw.comm),
                    domain,
                },
            ),
        }
    }

    /// Parses an event from ring buffer data. `clock` turns the kernel's time
    /// into Unix time. `None` where the data is too short or holds no query
    /// name.
    pub fn from_bytes<F: Fn(u64) -> u64>(data: &[u8], layout: &UdpDnsLayout, clock: &F) -> (r:
        Option<Self>)
        requires
            layout.wf(),
            forall|t: u64| #[trigger] call_requires(*clock, (t,)),
        ensures
            Self::parsed(data@, *layout, *clock, r),
            data@.len() < layout.size ==> r is None,
            r matches Some(e) ==> {
                let o = layout.order;
                &&& e.pid == record::number_at(data@, layout.pid as int, 4, o)
                &&& e.tid == record::number_at(data@, layout.tid as int, 4, o)
                &&& e.uid == record::number_at(data@, layout.uid as int, 4, o)
                &&& e.cgroup_id == record::number_at(data@, layout.cgroup_id as int, 8, o)
                &&& call_ensures(
                    *clock,
                    (record::number_at(data@, layout.timestamp_ns as int, 8, o) as u64,),
                    e.timestamp_ns,
                )
                &&& e.comm@ == record::field_text(
                    data@.subrange(
                        layout.comm.offset as int,
                        layout.comm.offset + layout.comm.len,
                    ),
                )
            },
    {
        match RawUdpDnsEvent::from_bytes(data, layout) {
            None => None,
            Some(raw) => {
                let unix_ns: u64 = clock(raw.timestamp_ns);
                UdpDnsEvent::from_raw(&raw, unix_ns)
            },
        }
    }
}

} // verus!
