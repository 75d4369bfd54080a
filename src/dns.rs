//! Building the plain DNS query message that is sent inside the oblivious
//! envelope: a header asking for recursion, one question, class IN.
use vstd::prelude::*;
use vstd::string::StringSliceAdditionalSpecFns;

verus! {

/// The byte `.` that separates labels in a presentation-form domain name.
pub const DOT: u8 = 46;

/// Longest label in a domain name.
pub const MAX_LABEL: usize = 63;

/// Longest domain name in wire form.
pub const MAX_NAME_WIRE: usize = 255;

/// The class IN.
pub const CLASS_IN: u16 = 1;

/// Number of non-dot bytes of `d` from `i` up to the next dot or the end.
pub open spec fn run_len(d: Seq<u8>, i: int) -> nat
    decreases d.len() - i,
{
    if i < 0 || i >= d.len() || d[i] == DOT {
        0
    } else {
        1 + run_len(d, i + 1)
    }
}

/// Whether a label starts at `i` in `d`.
pub open spec fn label_start(d: Seq<u8>, i: int) -> bool {
    0 <= i <= d.len() && (i == 0 || d[i - 1] == DOT)
}

/// A name without its root dot is valid when every label has 1 to 63 bytes
/// and its wire form fits in 255 bytes.
pub open spec fn valid_name(d: Seq<u8>) -> bool {
    &&& d.len() + 2 <= MAX_NAME_WIRE
    &&& forall|i: int|
        #![trigger run_len(d, i)]
        label_start(d, i) ==> 1 <= run_len(d, i) <= MAX_LABEL
}

/// Wire form of a name: each dot, and the start, becomes the length of the
/// label that follows it, and a zero byte closes the name.
pub open spec fn name_wire(d: Seq<u8>) -> Seq<u8> {
    Seq::new(
        (d.len() + 2) as nat,
        |p: int|
            if p == d.len() + 1 {
                0u8
            } else if label_start(d, p) {
                run_len(d, p) as u8
            } else {
                d[p - 1]
            },
    )
}

/// The name with one trailing root dot taken off.
pub open spec fn strip_root(d: Seq<u8>) -> Seq<u8> {
    if d.len() > 0 && d.last() == DOT {
        d.drop_last()
    } else {
        d
    }
}

/// ASCII upper case of one byte.
pub open spec fn ascii_upper(c: u8) -> u8 {
    if 97 <= c <= 122 {
        (c - 32) as u8
    } else {
        c
    }
}

/// The record type named by its mnemonic, in any letter case.
pub open spec fn qtype_code(t: Seq<u8>) -> Option<u16> {
    let u = t.map_values(|c: u8| ascii_upper(c));
    if u =~= seq![65u8] {
        Some(1u16)  // A
    } else if u =~= seq![78u8, 83] {
        Some(2u16)  // NS
    } else if u =~= seq![67u8, 78, 65, 77, 69] {
        Some(5u16)  // CNAME
    } else if u =~= seq![83u8, 79, 65] {
        Some(6u16)  // SOA
    } else if u =~= seq![80u8, 84, 82] {
        Some(12u16)  // PTR
    } else if u =~= seq![77u8, 88] {
        Some(15u16)  // MX
    } else if u =~= seq![84u8, 88, 84] {
        Some(16u16)  // TXT
    } else if u =~= seq![65u8, 65, 65, 65] {
        Some(28u16)  // AAAA
    } else if u =~= seq![83u8, 82, 86] {
        Some(33u16)  // SRV
    } else if u =~= seq![72u8, 84, 84, 80, 83] {
        Some(65u16)  // HTTPS
    } else if u =~= seq![65u8, 78, 89] {
        Some(255u16)  // ANY
    } else {
        None
    }
}

/// Big-endian bytes of a 16-bit value.
pub open spec fn be16(v: u16) -> Seq<u8> {
    seq![(v / 256) as u8, (v % 256) as u8]
}

/// Header of a query: identifier 0, recursion desired, one question.
pub open spec fn query_header() -> Seq<u8> {
    seq![0u8, 0, 1, 0, 0, 1, 0, 0, 0, 0, 0, 0]
}

/// The DNS query message for a domain and a record type mnemonic, or `None`
/// where the name or the type is not valid.
pub open spec fn dns_query(domain: Seq<u8>, qtype: Seq<u8>) -> Option<Seq<u8>> {
    let d = strip_root(domain);
    match qtype_code(qtype) {
        Some(code) => if valid_name(d) {
            Some(query_header() + name_wire(d) + be16(code) + be16(CLASS_IN))
        } else {
            None
        },
        None => None,
    }
}

fn bytes_are(t: &[u8], lit: &[u8]) -> (r: bool)
    ensures
        r == (t@.map_values(|c: u8| ascii_upper(c)) =~= lit@),
{
    if t.len() != lit.len() {
        return false;
    }
    let mut i: usize = 0;
    while i < t.len()
        invariant
            t@.len() == lit@.len(),
            0 <= i <= t@.len(),
            forall|k: int| 0 <= k < i ==> ascii_upper(#[trigger] t@[k]) == lit@[k],
        decreases t@.len() - i,
    {
        let c = t[i];
        let u: u8 = if 97 <= c && c <= 122 { c - 32 } else { c };
        if u != lit[i] {
            assert(t@.map_values(|c: u8| ascii_upper(c))[i as int] != lit@[i as int]);
            return false;
        }
        i = i + 1;
    }
    true
}

/// The numeric code of a record type mnemonic such as `A` or `aaaa`.
pub fn record_type_code(t: &str) -> (r: Option<u16>)
    ensures
        r == qtype_code(t.spec_bytes()),
{
    let b = t.as_bytes();
    if bytes_are(b, &[65u8]) {
        Some(1)
    } else if bytes_are(b, &[78u8, 83]) {
        Some(2)
    } else if bytes_are(b, &[67u8, 78, 65, 77, 69]) {
        Some(5)
    } else if bytes_are(b, &[83u8, 79, 65]) {
        Some(6)
    } else if bytes_are(b, &[80u8, 84, 82]) {
        Some(12)
    } else if bytes_are(b, &[77u8, 88]) {
        Some(15)
    } else if bytes_are(b, &[84u8, 88, 84]) {
        Some(16)
    } else if bytes_are(b, &[65u8, 65, 65, 65]) {
        Some(28)
    } else if bytes_are(b, &[83u8, 82, 86]) {
        Some(33)
    } else if bytes_are(b, &[72u8, 84, 84, 80, 83]) {
        Some(65)
    } else if bytes_are(b, &[65u8, 78, 89]) {
        Some(255)
    } else {
        None
    }
}

proof fn lemma_run_len_step(d: Seq<u8>, i: int)
    requires
        0 <= i < d.len(),
        d[i] != DOT,
    ensures
        run_len(d, i) == 1 + run_len(d, i + 1),
{
}

/// Appends the wire form of `d` to `out`, where `d` is a valid name.
fn push_name(out: &mut Vec<u8>, d: &[u8]) -> (r: bool)
    requires
        old(out)@.len() + d@.len() + 2 <= usize::MAX,
    ensures
        r == valid_name(d@),
        r ==> final(out)@ == old(out)@ + name_wire(d@),
{
    if d.len() + 2 > MAX_NAME_WIRE {
        return false;
    }
    let ghost base = out@;
    let ghost w = name_wire(d@);
    let mut start: usize = 0;
    loop
        invariant
            d@.len() + 2 <= MAX_NAME_WIRE,
            w == name_wire(d@),
            w.len() == d@.len() + 2,
            base == old(out)@,
            label_start(d@, start as int),
            out@ == base + w.subrange(0, start as int),
            forall|k: int|
                #![trigger run_len(d@, k)]
                label_start(d@, k) && k < start ==> 1 <= run_len(d@, k) <= MAX_LABEL,
        decreases d@.len() - start,
    {
        let mut j: usize = start;
        while j < d.len() && d[j] != DOT
            invariant
                start <= j <= d@.len(),
                run_len(d@, start as int) == (j - start) + run_len(d@, j as int),
                forall|k: int| start <= k < j ==> d@[k] != DOT,
            decreases d@.len() - j,
        {
            proof {
                lemma_run_len_step(d@, j as int);
            }
            j = j + 1;
        }
        assert(run_len(d@, j as int) == 0);
        let len: usize = j - start;
        if len == 0 || len > MAX_LABEL {
            assert(!(1 <= run_len(d@, start as int) <= MAX_LABEL));
            return false;
        }
        out.push(len as u8);
        assert(out@ == base + w.subrange(0, start + 1));
        let mut k: usize = start;
        while k < j
            invariant
                start <= k <= j <= d@.len(),
                d@.len() + 2 <= MAX_NAME_WIRE,
                w == name_wire(d@),
                w.len() == d@.len() + 2,
                forall|m: int| start <= m < j ==> d@[m] != DOT,
                out@ == base + w.subrange(0, k + 1),
            decreases j - k,
        {
            out.push(d[k]);
            assert(!label_start(d@, k + 1));
            assert(w[k + 1] == d@[k as int]);
            assert(out@ =~= base + w.subrange(0, k + 2));
            k = k + 1;
        }
        assert forall|m: int|
            #![trigger run_len(d@, m)]
            label_start(d@, m) && m < j + 1 implies 1 <= run_len(d@, m) <= MAX_LABEL by {
            if m > start {
                assert(d@[m - 1] != DOT);
            }
        }
        if j == d.len() {
            out.push(0);
            assert(out@ =~= base + w);
            assert forall|m: int|
                #![trigger run_len(d@, m)]
                label_start(d@, m) implies 1 <= run_len(d@, m) <= MAX_LABEL by {
                assert(m < j + 1);
            }
            return true;
        }
        start = j + 1;
    }
}

/// Appends the big-endian bytes of `v`.
fn push_be16(out: &mut Vec<u8>, v: u16)
    ensures
        final(out)@ == old(out)@ + be16(v),
{
    out.push((v / 256) as u8);
    out.push((v % 256) as u8);
    assert(final(out)@ =~= old(out)@ + be16(v));
}

/// The DNS query message asking for records of type `qtype` at `domain`, or
/// `None` where the type mnemonic is unknown or the name is not valid.
pub fn create_dns_query(domain: &str, qtype: &str) -> (r: Option<Vec<u8>>)
    ensures
        r is Some <==> dns_query(domain.spec_bytes(), qtype.spec_bytes()) is Some,
        r matches Some(m) ==> dns_query(domain.spec_bytes(), qtype.spec_bytes()) == Some(m@),
{
    let code = match record_type_code(qtype) {
        Some(c) => c,
        None => return None,
    };
    let bytes = domain.as_bytes();
    let n = bytes.len();
    let name: &[u8] = if n > 0 && bytes[n - 1] == DOT {
        slice_prefix(bytes, n - 1)
    } else {
        bytes
    };
    assert(name@ == strip_root(domain.spec_bytes()));
    if name.len() > MAX_NAME_WIRE - 2 {
        return None;
    }
    let mut out: Vec<u8> = vec![0u8, 0, 1, 0, 0, 1, 0, 0, 0, 0, 0, 0];
    assert(out@ =~= query_header());
    if !push_name(&mut out, name) {
        return None;
    }
    push_be16(&mut out, code);
    push_be16(&mut out, CLASS_IN);
    Some(out)
}

/// The first `n` bytes of `b`.
fn slice_prefix(b: &[u8], n: usize) -> (r: &[u8])
    requires
        n <= b@.len(),
    ensures
        r@ == b@.subrange(0, n as int),
{
    let (head, _) = b.split_at(n);
    head
}

/// A record of a DNS answer section: its type and its data.
#[derive(Clone, Debug, PartialEq, Eq)]
pub struct DnsRecord {
    pub rtype: u16,
    pub rdata: Vec<u8>,
}

/// The 16-bit big-endian value at `i`.
pub open spec fn u16_at(m: Seq<u8>, i: int) -> int {
    m[i] as int * 256 + m[i + 1] as int
}

/// Where the encoded name that starts at `i` ends: labels up to a zero byte,
/// or up to a two-byte compression pointer.
pub open spec fn name_end(m: Seq<u8>, i: int) -> Option<int>
    decreases m.len() - i,
{
    if i < 0 || i >= m.len() {
        None
    } else if m[i] == 0 {
        Some(i + 1)
    } else if m[i] >= 192 {
        if i + 2 <= m.len() {
            Some(i + 2)
        } else {
            None
        }
    } else if m[i] >= 64 || i + 1 + m[i] as int > m.len() {
        None
    } else {
        name_end(m, i + 1 + m[i] as int)
    }
}

/// Where the `n` questions that start at `i` end.
pub open spec fn questions_end(m: Seq<u8>, i: int, n: nat) -> Option<int>
    decreases n,
{
    if n == 0 {
        Some(i)
    } else {
        match name_end(m, i) {
            Some(e) => if e + 4 <= m.len() {
                questions_end(m, e + 4, (n - 1) as nat)
            } else {
                None
            },
            None => None,
        }
    }
}

/// The `n` resource records that start at `i`, each as its type and data.
pub open spec fn records_from(m: Seq<u8>, i: int, n: nat) -> Option<Seq<(u16, Seq<u8>)>>
    decreases n,
{
    if n == 0 {
        Some(Seq::empty())
    } else {
        match name_end(m, i) {
            Some(e) => if e + 10 <= m.len() && e + 10 + u16_at(m, e + 8) <= m.len() {
                let data_end = e + 10 + u16_at(m, e + 8);
                match records_from(m, data_end, (n - 1) as nat) {
                    Some(rest) => Some(
                        seq![(u16_at(m, e) as u16, m.subrange(e + 10, data_end))] + rest,
                    ),
                    None => None,
                }
            } else {
                None
            },
            None => None,
        }
    }
}

/// The answer section of a DNS message, or `None` where the message is cut
/// short or holds a malformed name.
pub open spec fn dns_answers(m: Seq<u8>) -> Option<Seq<(u16, Seq<u8>)>> {
    if m.len() < 12 {
        None
    } else {
        match questions_end(m, 12, u16_at(m, 4) as nat) {
            Some(q) => records_from(m, q, u16_at(m, 6) as nat),
            None => None,
        }
    }
}

/// The type and data of each record.
pub open spec fn records_view(r: Seq<DnsRecord>) -> Seq<(u16, Seq<u8>)> {
    r.map_values(|x: DnsRecord| (x.rtype, x.rdata@))
}

fn read_u16(m: &[u8], i: usize) -> (r: u16)
    requires
        i + 2 <= m@.len(),
    ensures
        r as int == u16_at(m@, i as int),
{
    (m[i] as u16) * 256 + (m[i + 1] as u16)
}

fn skip_name(m: &[u8], i: usize) -> (r: Option<usize>)
    ensures
        r matches Some(e) ==> name_end(m@, i as int) == Some(e as int),
        r is None ==> name_end(m@, i as int) is None,
{
    let mut j: usize = i;
    while j < m.len()
        invariant
            i <= j,
            name_end(m@, i as int) == name_end(m@, j as int),
        decreases m@.len() - j,
    {
        let b = m[j];
        if b == 0 {
            return Some(j + 1);
        } else if b >= 192 {
            if m.len() - j >= 2 {
                return Some(j + 2);
            } else {
                return None;
            }
        } else if b >= 64 || b as usize + 1 > m.len() - j {
            return None;
        }
        j = j + 1 + b as usize;
    }
    None
}

fn copy_range(m: &[u8], from: usize, to: usize) -> (r: Vec<u8>)
    requires
        from <= to <= m@.len(),
    ensures
        r@ == m@.subrange(from as int, to as int),
{
    let mut v: Vec<u8> = Vec::new();
    let mut k: usize = from;
    while k < to
        invariant
            from <= k <= to <= m@.len(),
            v@ == m@.subrange(from as int, k as int),
        decreases to - k,
    {
        v.push(m[k]);
        assert(v@ =~= m@.subrange(from as int, k + 1));
        k = k + 1;
    }
    v
}

/// The records of the answer section of the DNS message `m`, or `None`
/// where it is cut short or holds a malformed name.
pub fn parse_dns_answer(m: &[u8]) -> (r: Option<Vec<DnsRecord>>)
    ensures
        r is Some <==> dns_answers(m@) is Some,
        r matches Some(v) ==> dns_answers(m@) == Some(records_view(v@)),
{
    if m.len() < 12 {
        return None;
    }
    let qd = read_u16(m, 4);
    let an = read_u16(m, 6);
    assert(dns_answers(m@) == match questions_end(m@, 12, qd as nat) {
        Some(q) => records_from(m@, q, an as nat),
        None => None,
    });
    let mut i: usize = 12;
    let mut n: u16 = qd;
    while n > 0
        invariant
            m@.len() >= 12,
            i <= m@.len(),
            questions_end(m@, 12, qd as nat) == questions_end(m@, i as int, n as nat),
            dns_answers(m@) == match questions_end(m@, 12, qd as nat) {
                Some(q) => records_from(m@, q, an as nat),
                None => None,
            },
        decreases n,
    {
        let e = match skip_name(m, i) {
            Some(e) => e,
            None => {
                assert(questions_end(m@, i as int, n as nat) is None);
                return None;
            },
        };
        if e > m.len() || m.len() - e < 4 {
            assert(questions_end(m@, i as int, n as nat) is None);
            return None;
        }
        i = e + 4;
        n = n - 1;
    }
    assert(questions_end(m@, i as int, 0) == Some(i as int));
    let mut out: Vec<DnsRecord> = Vec::new();
    assert(records_view(out@) + records_from(m@, i as int, an as nat)->Some_0 =~= records_from(m@, i as int, an as nat)->Some_0);
    let mut n: u16 = an;
    while n > 0
        invariant
            m@.len() >= 12,
            i <= m@.len(),
            dns_answers(m@) == match records_from(m@, i as int, n as nat) {
                Some(rest) => Some(records_view(out@) + rest),
                None => None::<Seq<(u16, Seq<u8>)>>,
            },
        decreases n,
    {
        let e = match skip_name(m, i) {
            Some(e) => e,
            None => return None,
        };
        if e > m.len() || m.len() - e < 10 {
            return None;
        }
        let rtype = read_u16(m, e);
        let len = read_u16(m, e + 8) as usize;
        if m.len() - (e + 10) < len {
            return None;
        }
        let rdata = copy_range(m, e + 10, e + 10 + len);
        let ghost before = out@;
        out.push(DnsRecord { rtype, rdata });
        assert(records_view(out@) =~= records_view(before) + seq![(rtype, rdata@)]);
        proof {
            let rest = records_from(m@, (e + 10 + len) as int, (n - 1) as nat);
            if let Some(rs) = rest {
                assert(records_view(before) + (seq![(rtype, rdata@)] + rs) =~= records_view(out@) + rs);
            }
        }
        i = e + 10 + len;
        n = n - 1;
    }
    assert(records_view(out@) + Seq::<(u16, Seq<u8>)>::empty() =~= records_view(out@));
    Some(out)
}

} // verus!
