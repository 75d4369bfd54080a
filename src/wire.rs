//! The published configuration set: its framing into entries, and the choice
//! of the first entry this client supports.
use crate::dns::u16_at;
use crate::error::ClientError;
use crate::protocol::{contents_decode, decode_config_contents, odoh_version};
use odoh_rs::ObliviousDoHConfigContents;
use vstd::prelude::*;

verus! {

/// The version of configuration this client speaks.
pub const SUPPORTED_VERSION: u16 = 1;

/// One entry of a configuration set: its version and its contents bytes.
#[derive(Clone, Debug, PartialEq, Eq)]
pub struct ConfigEntry {
    pub version: u16,
    pub contents: Vec<u8>,
}

/// The version and contents of each entry.
pub open spec fn entries_view(e: Seq<ConfigEntry>) -> Seq<(u16, Seq<u8>)> {
    e.map_values(|x: ConfigEntry| (x.version, x.contents@))
}

/// The entries laid out back to back from `i` up to `end`: a two-byte
/// version, a two-byte length and that many contents bytes each.
pub open spec fn entries_from(m: Seq<u8>, i: int, end: int) -> Option<Seq<(u16, Seq<u8>)>>
    decreases end - i,
{
    if i >= end {
        Some(Seq::empty())
    } else if i + 4 > end || i < 0 || end > m.len() {
        None
    } else {
        let next = i + 4 + u16_at(m, i + 2);
        if next > end {
            None
        } else {
            match entries_from(m, next, end) {
                Some(rest) => Some(seq![(u16_at(m, i) as u16, m.subrange(i + 4, next))] + rest),
                None => None,
            }
        }
    }
}

/// The entries of an encoded configuration set, which opens with the
/// two-byte length of the entries; `None` where the framing is broken.
pub open spec fn config_entries(m: Seq<u8>) -> Option<Seq<(u16, Seq<u8>)>> {
    if m.len() < 2 || 2 + u16_at(m, 0) > m.len() {
        None
    } else {
        entries_from(m, 2, 2 + u16_at(m, 0))
    }
}

/// Whether this client supports an entry.
pub open spec fn supported(e: (u16, Seq<u8>)) -> bool {
    e.0 == SUPPORTED_VERSION && contents_decode(e.1)
}

/// The index of the first supported entry at or after `i`.
pub open spec fn first_supported_from(es: Seq<(u16, Seq<u8>)>, i: int) -> Option<int>
    decreases es.len() - i,
{
    if i < 0 || i >= es.len() {
        None
    } else if supported(es[i]) {
        Some(i)
    } else {
        first_supported_from(es, i + 1)
    }
}

/// The index of the first supported entry, in publication order.
pub open spec fn first_supported(es: Seq<(u16, Seq<u8>)>) -> Option<int> {
    first_supported_from(es, 0)
}

fn read_u16(m: &[u8], i: usize) -> (r: u16)
    requires
        i + 2 <= m@.len(),
    ensures
        r as int == u16_at(m@, i as int),
{
    (m[i] as u16) * 256 + (m[i + 1] as u16)
}

/// The entries of the encoded configuration set `m`, or `None` where it is
/// cut short or its lengths do not fit.
pub fn split_config_set(m: &[u8]) -> (r: Option<Vec<ConfigEntry>>)
    ensures
        r is Some <==> config_entries(m@) is Some,
        r matches Some(v) ==> config_entries(m@) == Some(entries_view(v@)),
{
    if m.len() < 2 {
        return None;
    }
    let total = read_u16(m, 0) as usize;
    if total > m.len() - 2 {
        return None;
    }
    let end: usize = 2 + total;
    let mut i: usize = 2;
    let mut out: Vec<ConfigEntry> = Vec::new();
    assert(entries_view(out@) =~= Seq::<(u16, Seq<u8>)>::empty());
    while i < end
        invariant
            2 <= i <= end <= m@.len(),
            end == 2 + u16_at(m@, 0),
            config_entries(m@) == match entries_from(m@, i as int, end as int) {
                Some(rest) => Some(entries_view(out@) + rest),
                None => None::<Seq<(u16, Seq<u8>)>>,
            },
        decreases end - i,
    {
        if end - i < 4 {
            return None;
        }
        let version = read_u16(m, i);
        let len = read_u16(m, i + 2) as usize;
        if len > end - i - 4 {
            return None;
        }
        let next = i + 4 + len;
        let contents = copy_range(m, i + 4, next);
        let ghost before = out@;
        out.push(ConfigEntry { version, contents });
        assert(entries_view(out@) =~= entries_view(before) + seq![(version, contents@)]);
        proof {
            if let Some(rs) = entries_from(m@, next as int, end as int) {
                assert(entries_view(before) + (seq![(version, contents@)] + rs) =~= entries_view(out@) + rs);
            }
        }
        i = next;
    }
    assert(entries_view(out@) + Seq::<(u16, Seq<u8>)>::empty() =~= entries_view(out@));
    Some(out)
}

fn copy_range(m: &[u8], from: usize, to: usize) -> (r: Vec<u8>)
    requires
        from <= to <= m@.len(),
    ensures
        r@ == m@.subrange(from as int, to as int),
{
    let mut v: Vec<u8> = Vec::new();
    let mut k: usize = from;
    while k < to
        invariant
            from <= k <= to <= m@.len(),
            v@ == m@.subrange(from as int, k as int),
        decreases to - k,
    {
        v.push(m[k]);
        assert(v@ =~= m@.subrange(from as int, k + 1));
        k = k + 1;
    }
    v
}

/// The first entry, in publication order, whose version this client speaks
/// and whose contents it supports, decoded, with its index; or
/// `NoCompatibleConfig` where there is none.
pub fn select_config(entries: &Vec<ConfigEntry>) -> (r: Result<(ObliviousDoHConfigContents, usize), ClientError>)
    ensures
        first_supported(entries_view(entries@)) is None <==> r == Err::<
            (ObliviousDoHConfigContents, usize),
            ClientError,
        >(ClientError::NoCompatibleConfig),
        r matches Err(e) ==> e == ClientError::NoCompatibleConfig,
        r matches Ok((_, j)) ==> first_supported(entries_view(entries@)) == Some(j as int) && j
            < entries@.len(),
{
    let ghost es = entries_view(entries@);
    let version = odoh_version();
    let mut i: usize = 0;
    while i < entries.len()
        invariant
            i <= entries@.len(),
            es == entries_view(entries@),
            version == SUPPORTED_VERSION,
            first_supported_from(es, 0) == first_supported_from(es, i as int),
        decreases entries@.len() - i,
    {
        let e = &entries[i];
        assert(es[i as int] == (e.version, e.contents@));
        if e.version == version {
            if let Some(c) = decode_config_contents(e.contents.as_slice()) {
                return Ok((c, i));
            }
        }
        i = i + 1;
    }
    Err(ClientError::NoCompatibleConfig)
}

} // verus!
