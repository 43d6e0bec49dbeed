use crate::error::Error;
use crate::records::{push_u32_le, read_u32_le};
use vstd::bytes::{
    lemma_auto_spec_u32_to_from_le_bytes, spec_u32_from_le_bytes, spec_u32_to_le_bytes,
};
use vstd::prelude::*;
use vstd::slice::{slice_subrange, slice_to_vec};
use vstd::utf8::{decode_utf8, encode_utf8, valid_utf8};

verus! {

/// A financial instrument: its ticker, its display name and, once the
/// server has assigned one, its numeric id.
#[derive(Debug, Clone)]
pub struct Instrument {
    /// Instrument ticker.
    pub ticker: String,
    /// Instrument name, e.g. the company's full name.
    pub name: String,
    /// Unique instrument id number, if assigned.
    pub instrument_id: Option<u32>,
}

impl Instrument {
    pub fn new(ticker: &str, name: &str, instrument_id: Option<u32>) -> (r: Instrument)
        ensures
            r.ticker@ == ticker@,
            r.name@ == name@,
            r.instrument_id == instrument_id,
    {
        Instrument { ticker: ticker.to_owned(), name: name.to_owned(), instrument_id }
    }
}

/// The position of the first pair carrying `id`, or `-1` when none does.
pub open spec fn find_key(entries: Seq<(u32, Seq<char>)>, id: u32) -> int
    decreases entries.len(),
{
    if entries.len() == 0 {
        -1
    } else if entries[0].0 == id {
        0
    } else {
        let rest = find_key(entries.drop_first(), id);
        if rest == -1 {
            -1
        } else {
            rest + 1
        }
    }
}

pub proof fn lemma_find_key(entries: Seq<(u32, Seq<char>)>, id: u32)
    ensures
        find_key(entries, id) == -1 ==> forall|j: int|
            0 <= j < entries.len() ==> (#[trigger] entries[j]).0 != id,
        find_key(entries, id) != -1 ==> {
            &&& 0 <= find_key(entries, id) < entries.len()
            &&& entries[find_key(entries, id)].0 == id
            &&& forall|j: int| 0 <= j < find_key(entries, id) ==> (#[trigger] entries[j]).0 != id
        },
    decreases entries.len(),
{
    if entries.len() > 0 && entries[0].0 != id {
        lemma_find_key(entries.drop_first(), id);
        assert forall|j: int|
            0 <= j < entries.len() && find_key(entries, id) == -1 implies (
        #[trigger] entries[j]).0 != id by {
            if j > 0 {
                assert(entries.drop_first()[j - 1] == entries[j]);
            }
        }
        if find_key(entries, id) != -1 {
            assert forall|j: int| 0 <= j < find_key(entries, id) implies (
            #[trigger] entries[j]).0 != id by {
                if j > 0 {
                    assert(entries.drop_first()[j - 1] == entries[j]);
                }
            }
        }
    }
}

/// The ticker a pair sequence binds to `id`: the first pair carrying
/// it, if any (in a table that binds each id once, the one binding).
pub open spec fn spec_lookup(entries: Seq<(u32, Seq<char>)>, id: u32) -> Option<Seq<char>> {
    let k = find_key(entries, id);
    if k == -1 {
        None
    } else {
        Some(entries[k].1)
    }
}

/// True when no two pairs carry the same id.
pub open spec fn keys_unique(entries: Seq<(u32, Seq<char>)>) -> bool {
    forall|i: int, j: int|
        0 <= i < j < entries.len() ==> (#[trigger] entries[i]).0 != (#[trigger] entries[j]).0
}

/// The pair sequence after binding `id` to `t`: the first pair already
/// carrying `id` is replaced in place, or a new pair is appended.
pub open spec fn insert_entry(entries: Seq<(u32, Seq<char>)>, id: u32, t: Seq<char>) -> Seq<
    (u32, Seq<char>),
> {
    let k = find_key(entries, id);
    if k == -1 {
        entries.push((id, t))
    } else {
        entries.update(k, (id, t))
    }
}

/// Binding a pair never makes an id appear twice.
pub proof fn lemma_insert_entry_unique(entries: Seq<(u32, Seq<char>)>, id: u32, t: Seq<char>)
    requires
        keys_unique(entries),
    ensures
        keys_unique(insert_entry(entries, id, t)),
{
    lemma_find_key(entries, id);
    let k = find_key(entries, id);
    let e2 = insert_entry(entries, id, t);
    if k == -1 {
        assert forall|i: int, j: int| 0 <= i < j < e2.len() implies (#[trigger] e2[i]).0 != (
        #[trigger] e2[j]).0 by {
            if j == entries.len() {
                assert(entries[i].0 != id);
            } else {
                assert(e2[i] == entries[i]);
                assert(e2[j] == entries[j]);
            }
        }
    } else {
        assert forall|i: int, j: int| 0 <= i < j < e2.len() implies (#[trigger] e2[i]).0 != (
        #[trigger] e2[j]).0 by {
            assert(e2[i].0 == entries[i].0);
            assert(e2[j].0 == entries[j].0);
        }
    }
}

/// The table a wire's pair sequence decodes to: each pair is bound in
/// order, so a later pair carrying an id already bound replaces the
/// earlier binding — the last ticker the wire carries for an id wins.
pub open spec fn collapse_entries(entries: Seq<(u32, Seq<char>)>) -> Seq<(u32, Seq<char>)>
    decreases entries.len(),
{
    if entries.len() == 0 {
        Seq::empty()
    } else {
        insert_entry(
            collapse_entries(entries.drop_last()),
            entries.last().0,
            entries.last().1,
        )
    }
}

pub proof fn lemma_collapse_push(entries: Seq<(u32, Seq<char>)>, e: (u32, Seq<char>))
    ensures
        collapse_entries(entries.push(e)) == insert_entry(collapse_entries(entries), e.0, e.1),
{
    assert(entries.push(e).drop_last() =~= entries);
    assert(entries.push(e).last() == e);
}

/// Collapsing changes nothing when every id already appears once.
pub proof fn lemma_collapse_identity(entries: Seq<(u32, Seq<char>)>)
    requires
        keys_unique(entries),
    ensures
        collapse_entries(entries) == entries,
    decreases entries.len(),
{
    if entries.len() == 0 {
        assert(collapse_entries(entries) =~= entries);
    } else {
        let front = entries.drop_last();
        let last = entries.last();
        assert forall|i: int, j: int| 0 <= i < j < front.len() implies (#[trigger] front[i]).0
            != (#[trigger] front[j]).0 by {
            assert(front[i] == entries[i]);
            assert(front[j] == entries[j]);
        }
        lemma_collapse_identity(front);
        lemma_find_key(front, last.0);
        let k = find_key(front, last.0);
        if k != -1 {
            assert(front[k] == entries[k]);
            assert(entries[k].0 == entries[entries.len() - 1].0);
            assert(false);
        }
        assert(collapse_entries(entries) == front.push(last));
        assert(front.push(last) =~= entries);
    }
}

/// True when two pair sequences bind exactly the same ids to the same
/// tickers, whatever order their pairs stand in.
pub open spec fn entries_map_equiv(a: Seq<(u32, Seq<char>)>, b: Seq<(u32, Seq<char>)>) -> bool {
    forall|id: u32| #[trigger] spec_lookup(a, id) == spec_lookup(b, id)
}

/// An instrument-id to ticker table embedded in the metadata block. The
/// wire form is a count followed by `(id, byte length, UTF-8 bytes)`
/// entries; the table keeps its pairs in insertion order and binds each
/// id at most once.
#[derive(Debug)]
pub struct SymbolMap {
    map: Vec<(u32, String)>,
}

impl SymbolMap {
    /// The pairs this table holds, in order.
    pub closed spec fn entries(&self) -> Seq<(u32, Seq<char>)> {
        self.map@.map_values(|p: (u32, String)| (p.0, p.1@))
    }

    /// An empty table.
    pub fn new() -> (r: SymbolMap)
        ensures
            r.entries() == Seq::<(u32, Seq<char>)>::empty(),
            keys_unique(r.entries()),
    {
        let r = SymbolMap { map: Vec::new() };
        proof {
            assert(r.entries() =~= Seq::<(u32, Seq<char>)>::empty());
        }
        r
    }

    /// Binds `id` to `ticker`: replaces the first pair already carrying
    /// `id`, or appends a new pair when none does.
    pub fn add_instrument(&mut self, ticker: &str, id: u32)
        ensures
            final(self).entries() == insert_entry(old(self).entries(), id, ticker@),
            keys_unique(old(self).entries()) ==> keys_unique(final(self).entries()),
    {
        proof {
            if keys_unique(old(self).entries()) {
                lemma_insert_entry_unique(old(self).entries(), id, ticker@);
            }
        }
        let n: usize = self.map.len();
        let mut i: usize = 0;
        while i < n
            invariant
                n == self.map.len(),
                i <= n,
                *self == *old(self),
                forall|j: int| 0 <= j < i ==> (#[trigger] old(self).entries()[j]).0 != id,
            decreases n - i,
        {
            if self.map[i].0 == id {
                assert(old(self).entries()[i as int].0 == id);
                self.map.remove(i);
                self.map.insert(i, (id, ticker.to_owned()));
                proof {
                    let e = old(self).entries();
                    lemma_find_key(e, id);
                    let k = find_key(e, id);
                    if k == -1 {
                        assert(e[i as int].0 != id);
                    } else if k < i as int {
                        assert(e[k].0 != id);
                    } else if k > i as int {
                        assert(e[i as int].0 != id);
                    }
                    assert(k == i as int);
                    assert(self.entries() =~= old(self).entries().update(
                        i as int,
                        (id, ticker@),
                    ));
                    assert(self.entries() == insert_entry(old(self).entries(), id, ticker@));
                }
                return ;
            }
            i = i + 1;
        }
        self.map.push((id, ticker.to_owned()));
        proof {
            lemma_find_key(old(self).entries(), id);
            assert(find_key(old(self).entries(), id) == -1);
            assert(self.entries() =~= old(self).entries().push((id, ticker@)));
            assert(self.entries() == insert_entry(old(self).entries(), id, ticker@));
        }
    }

    /// The ticker this table binds to `id`, if any.
    pub fn get_instrument_ticker(&self, id: u32) -> (r: Option<String>)
        ensures
            match r {
                Some(t) => spec_lookup(self.entries(), id) == Some(t@),
                None => spec_lookup(self.entries(), id) is None,
            },
    {
        let n: usize = self.map.len();
        let mut i: usize = 0;
        while i < n
            invariant
                n == self.map.len(),
                i <= n,
                forall|j: int| 0 <= j < i ==> (#[trigger] self.entries()[j]).0 != id,
            decreases n - i,
        {
            if self.map[i].0 == id {
                proof {
                    let e = self.entries();
                    lemma_find_key(e, id);
                    let k = find_key(e, id);
                    assert(e[i as int].0 == id);
                    if k == -1 {
                        assert(e[i as int].0 != id);
                    } else if k < i as int {
                        assert(e[k].0 != id);
                    } else if k > i as int {
                        assert(e[i as int].0 != id);
                    }
                    assert(k == i as int);
                }
                return Some(self.map[i].1.clone());
            }
            i = i + 1;
        }
        proof {
            lemma_find_key(self.entries(), id);
            let k = find_key(self.entries(), id);
            if k != -1 {
                assert(self.entries()[k].0 == id);
            }
        }
        None
    }

    /// The number of pairs held.
    pub fn len(&self) -> (r: usize)
        ensures
            r == self.entries().len(),
    {
        self.map.len()
    }
}

impl Default for SymbolMap {
    fn default() -> (r: SymbolMap)
        ensures
            r.entries() == Seq::<(u32, Seq<char>)>::empty(),
            keys_unique(r.entries()),
    {
        SymbolMap::new()
    }
}

impl PartialEq for SymbolMap {
    /// Two tables are equal when they bind the same ids to the same
    /// tickers, whatever order their pairs were added in.
    #[verifier::loop_isolation(false)]
    fn eq(&self, other: &SymbolMap) -> (r: bool)
        ensures
            r == entries_map_equiv(self.entries(), other.entries()),
    {
        let ghost a = self.entries();
        let ghost b = other.entries();
        let n: usize = self.map.len();
        let m: usize = other.map.len();
        let mut i: usize = 0;
        while i < n
            invariant
                i <= n,
                forall|t: int|
                    0 <= t < i ==> #[trigger] spec_lookup(a, a[t].0) == spec_lookup(b, a[t].0),
            decreases n - i,
        {
            let id: u32 = self.map[i].0;
            proof {
                assert(a[i as int].0 == id);
            }
            let mine = self.get_instrument_ticker(id);
            let theirs = other.get_instrument_ticker(id);
            let same: bool = match (&mine, &theirs) {
                (Some(x), Some(y)) => <String as PartialEq>::eq(x, y),
                (None, None) => true,
                _ => false,
            };
            if !same {
                proof {
                    assert(spec_lookup(a, id) != spec_lookup(b, id));
                }
                return false;
            }
            proof {
                assert(spec_lookup(a, a[i as int].0) == spec_lookup(b, a[i as int].0));
            }
            i = i + 1;
        }
        let mut j: usize = 0;
        while j < m
            invariant
                j <= m,
                forall|t: int|
                    0 <= t < n ==> #[trigger] spec_lookup(a, a[t].0) == spec_lookup(b, a[t].0),
                forall|t: int|
                    0 <= t < j ==> #[trigger] spec_lookup(a, b[t].0) == spec_lookup(b, b[t].0),
            decreases m - j,
        {
            let id: u32 = other.map[j].0;
            proof {
                assert(b[j as int].0 == id);
            }
            let mine = self.get_instrument_ticker(id);
            let theirs = other.get_instrument_ticker(id);
            let same: bool = match (&mine, &theirs) {
                (Some(x), Some(y)) => <String as PartialEq>::eq(x, y),
                (None, None) => true,
                _ => false,
            };
            if !same {
                proof {
                    assert(spec_lookup(a, id) != spec_lookup(b, id));
                }
                return false;
            }
            proof {
                assert(spec_lookup(a, b[j as int].0) == spec_lookup(b, b[j as int].0));
            }
            j = j + 1;
        }
        proof {
            assert forall|id: u32| #[trigger] spec_lookup(a, id) == spec_lookup(b, id) by {
                lemma_find_key(a, id);
                lemma_find_key(b, id);
                let ka = find_key(a, id);
                let kb = find_key(b, id);
                if ka != -1 {
                    assert(a[ka].0 == id);
                    assert(spec_lookup(a, a[ka].0) == spec_lookup(b, a[ka].0));
                } else if kb != -1 {
                    assert(b[kb].0 == id);
                    assert(spec_lookup(a, b[kb].0) == spec_lookup(b, b[kb].0));
                }
            }
        }
        true
    }
}

impl Eq for SymbolMap {

}

impl vstd::std_specs::cmp::PartialEqSpecImpl for SymbolMap {
    open spec fn obeys_eq_spec() -> bool {
        true
    }

    open spec fn eq_spec(&self, other: &SymbolMap) -> bool {
        entries_map_equiv(self.entries(), other.entries())
    }
}

impl Clone for SymbolMap {
    fn clone(&self) -> (r: SymbolMap)
        ensures
            r.entries() == self.entries(),
    {
        let n: usize = self.map.len();
        let mut out: Vec<(u32, String)> = Vec::new();
        let mut i: usize = 0;
        while i < n
            invariant
                n == self.map.len(),
                i <= n,
                out@.len() == i,
                forall|j: int| 0 <= j < i ==> out@[j] == self.map@[j],
            decreases n - i,
        {
            out.push((self.map[i].0, self.map[i].1.clone()));
            i = i + 1;
        }
        let r = SymbolMap { map: out };
        proof {
            assert(r.entries() =~= self.entries());
        }
        r
    }
}


/// True when a ticker's UTF-8 form fits the wire's length field.
pub open spec fn ticker_fits(t: Seq<char>) -> bool {
    encode_utf8(t).len() <= u32::MAX
}

/// True when a pair sequence fits the wire's count and length fields.
pub open spec fn serializable(entries: Seq<(u32, Seq<char>)>) -> bool {
    &&& entries.len() <= u32::MAX
    &&& forall|i: int| 0 <= i < entries.len() ==> ticker_fits((#[trigger] entries[i]).1)
}

/// UTF-8 spends at most four bytes per character, so any ticker of at
/// most `u32::MAX / 4` characters fits the wire's length field; callers
/// discharge `serializable` with this.
pub proof fn lemma_short_ticker_fits(t: Seq<char>)
    requires
        4 * t.len() <= u32::MAX,
    ensures
        encode_utf8(t).len() <= 4 * t.len(),
        ticker_fits(t),
    decreases t.len(),
{
    if t.len() > 0 {
        assert(vstd::utf8::encode_scalar(t[0] as u32).len() <= 4);
        lemma_short_ticker_fits(t.drop_first());
    }
}

/// The wire bytes of one pair: id, ticker byte length, ticker bytes.
pub open spec fn entry_wire(id: u32, t: Seq<char>) -> Seq<u8> {
    spec_u32_to_le_bytes(id) + spec_u32_to_le_bytes(encode_utf8(t).len() as u32) + encode_utf8(t)
}

/// The wire bytes of a pair sequence, in order.
pub open spec fn entries_wire(entries: Seq<(u32, Seq<char>)>) -> Seq<u8>
    decreases entries.len(),
{
    if entries.len() == 0 {
        Seq::empty()
    } else {
        entry_wire(entries[0].0, entries[0].1) + entries_wire(entries.drop_first())
    }
}

/// The whole table's wire bytes: the pair count, then the pairs.
pub open spec fn sym_map_wire(entries: Seq<(u32, Seq<char>)>) -> Seq<u8> {
    spec_u32_to_le_bytes(entries.len() as u32) + entries_wire(entries)
}

pub proof fn lemma_entries_wire_push(entries: Seq<(u32, Seq<char>)>, e: (u32, Seq<char>))
    ensures
        entries_wire(entries.push(e)) == entries_wire(entries) + entry_wire(e.0, e.1),
    decreases entries.len(),
{
    if entries.len() == 0 {
        let empty = Seq::<(u32, Seq<char>)>::empty();
        assert(entries.push(e).drop_first() =~= empty);
        assert(entries =~= empty);
        assert(entries_wire(empty) == Seq::<u8>::empty());
        assert(entries_wire(entries.push(e)) == entry_wire(e.0, e.1) + Seq::<u8>::empty());
        assert(entry_wire(e.0, e.1) + Seq::<u8>::empty() =~= entry_wire(e.0, e.1));
        assert(Seq::<u8>::empty() + entry_wire(e.0, e.1) =~= entry_wire(e.0, e.1));
    } else {
        assert(entries.push(e).drop_first() =~= entries.drop_first().push(e));
        lemma_entries_wire_push(entries.drop_first(), e);
        assert(entries_wire(entries.push(e)) =~= entries_wire(entries) + entry_wire(e.0, e.1));
    }
}

/// The pairs parsed out of `bytes` from offset `off` on, expecting `n`
/// of them, together with the offset just past them; nothing when the
/// bytes do not hold `n` well-formed pairs.
pub open spec fn parse_entries(bytes: Seq<u8>, off: int, n: nat) -> Option<
    (Seq<(u32, Seq<char>)>, int),
>
    decreases n,
{
    if n == 0 {
        Some((Seq::empty(), off))
    } else if 0 <= off && off + 8 <= bytes.len() {
        let id = spec_u32_from_le_bytes(bytes.subrange(off, off + 4));
        let tlen = spec_u32_from_le_bytes(bytes.subrange(off + 4, off + 8)) as int;
        if off + 8 + tlen <= bytes.len() && valid_utf8(bytes.subrange(off + 8, off + 8 + tlen)) {
            match parse_entries(bytes, off + 8 + tlen, (n - 1) as nat) {
                Some((rest, end)) => Some(
                    (seq![(id, decode_utf8(bytes.subrange(off + 8, off + 8 + tlen)))] + rest, end),
                ),
                None => None,
            }
        } else {
            None
        }
    } else {
        None
    }
}

/// The whole table parsed out of `bytes` from offset `off` on: the pair
/// count, then that many pairs.
pub open spec fn parse_sym_map(bytes: Seq<u8>, off: int) -> Option<(Seq<(u32, Seq<char>)>, int)> {
    if 0 <= off && off + 4 <= bytes.len() {
        parse_entries(
            bytes,
            off + 4,
            spec_u32_from_le_bytes(bytes.subrange(off, off + 4)) as nat,
        )
    } else {
        None
    }
}

impl SymbolMap {
    /// Binary-encodes the table for the wire: the pair count, then each
    /// pair as id, ticker byte length and ticker bytes, all little-endian.
    pub fn serialize(&self) -> (r: Vec<u8>)
        requires
            serializable(self.entries()),
        ensures
            r@ == sym_map_wire(self.entries()),
    {
        let n: usize = self.map.len();
        let mut out: Vec<u8> = Vec::new();
        push_u32_le(&mut out, n as u32);
        let mut i: usize = 0;
        while i < n
            invariant
                serializable(self.entries()),
                n == self.map.len(),
                i <= n,
                out@ == spec_u32_to_le_bytes(n as u32) + entries_wire(self.entries().take(i as int)),
            decreases n - i,
        {
            let ghost prefix = out@;
            push_u32_le(&mut out, self.map[i].0);
            let tb: &[u8] = self.map[i].1.as_str().as_bytes();
            let tlen: usize = tb.len();
            assert(ticker_fits(self.entries()[i as int].1));
            push_u32_le(&mut out, tlen as u32);
            out.extend_from_slice(tb);
            proof {
                let e = self.entries();
                assert(out@ =~= prefix + entry_wire(e[i as int].0, e[i as int].1));
                lemma_entries_wire_push(e.take(i as int), e[i as int]);
                assert(e.take(i as int).push(e[i as int]) =~= e.take(i as int + 1));
                assert(out@ =~= spec_u32_to_le_bytes(n as u32) + entries_wire(
                    e.take(i as int + 1),
                ));
            }
            i = i + 1;
        }
        proof {
            assert(self.entries().take(n as int) =~= self.entries());
        }
        out
    }

    /// Decodes a table from `bytes`, starting at `*offset` and leaving
    /// the offset just past the table on success. The wire's pairs are
    /// bound in order, so of two pairs carrying one id the later one
    /// wins, and the decoded table binds each id once. A malformed table
    /// (a truncated pair or a ticker that is not UTF-8) is an error and
    /// leaves the offset where it was.
    #[verifier::loop_isolation(false)]
    pub fn deserialize(bytes: &[u8], offset: &mut usize) -> (r: Result<SymbolMap, Error>)
        ensures
            match r {
                Ok(sm) => {
                    &&& parse_sym_map(bytes@, *old(offset) as int) matches Some((es, end))
                        && sm.entries() == collapse_entries(es) && *final(offset) as int == end
                    &&& keys_unique(sm.entries())
                },
                Err(e) => {
                    &&& parse_sym_map(bytes@, *old(offset) as int) is None
                    &&& e == Error::Conversion
                    &&& *final(offset) == *old(offset)
                },
            },
    {
        let n0: usize = bytes.len();
        let start: usize = *offset;
        if n0 < 4 || start > n0 - 4 {
            return Err(Error::Conversion);
        }
        let count: usize = read_u32_le(bytes, start) as usize;
        let mut cur: usize = start + 4;
        let mut sm = SymbolMap::new();
        let ghost mut done: Seq<(u32, Seq<char>)> = Seq::empty();
        let mut i: usize = 0;
        proof {
            assert(collapse_entries(done) =~= sm.entries());
        }
        while i < count
            invariant
                cur <= n0,
                i <= count,
                sm.entries() == collapse_entries(done),
                keys_unique(sm.entries()),
                parse_entries(bytes@, start as int + 4, count as nat) == (match parse_entries(
                    bytes@,
                    cur as int,
                    (count - i) as nat,
                ) {
                    Some((rest, end)) => Some((done + rest, end)),
                    None => None::<(Seq<(u32, Seq<char>)>, int)>,
                }),
            decreases count - i,
        {
            if n0 - cur < 8 {
                return Err(Error::Conversion);
            }
            let id: u32 = read_u32_le(bytes, cur);
            let tlen: usize = read_u32_le(bytes, cur + 4) as usize;
            if n0 - (cur + 8) < tlen {
                return Err(Error::Conversion);
            }
            let tb: Vec<u8> = slice_to_vec(slice_subrange(bytes, cur + 8, cur + 8 + tlen));
            let s: String = match string_from_utf8(tb) {
                Some(s) => s,
                None => {
                    return Err(Error::Conversion);
                },
            };
            proof {
                lemma_collapse_push(done, (id, s@));
            }
            sm.add_instrument(s.as_str(), id);
            proof {
                done = done.push((id, s@));
                assert forall|rest: Seq<(u32, Seq<char>)>|
                    true implies done.drop_last() + (seq![(id, s@)] + rest) =~= done + rest by {
                    assert(done.drop_last() =~= done.subrange(0, done.len() - 1));
                }
            }
            cur = cur + 8 + tlen;
            i = i + 1;
        }
        proof {
            assert(done + Seq::<(u32, Seq<char>)>::empty() =~= done);
        }
        *offset = cur;
        Ok(sm)
    }
}

/// Relies on `String::from_utf8`: it succeeds exactly on valid UTF-8 and
/// yields the characters that the bytes encode.
#[verifier::external_body]
fn string_from_utf8(bytes: Vec<u8>) -> (r: Option<String>)
    ensures
        match r {
            Some(s) => valid_utf8(bytes@) && s@ == decode_utf8(bytes@),
            None => !valid_utf8(bytes@),
        },
{
    match String::from_utf8(bytes) {
        Ok(s) => Some(s),
        Err(_) => None,
    }
}

/// A slice of a byte string known to stand embedded inside a larger one
/// is the matching slice of the embedded string.
pub proof fn lemma_embedded_subrange(all: Seq<u8>, off: int, w: Seq<u8>, a: int, b: int)
    requires
        0 <= off,
        off + w.len() <= all.len(),
        all.subrange(off, off + w.len() as int) == w,
        0 <= a <= b <= w.len(),
    ensures
        all.subrange(off + a, off + b) == w.subrange(a, b),
{
    assert forall|k: int| 0 <= k < b - a implies all.subrange(off + a, off + b)[k] == w.subrange(
        a,
        b,
    )[k] by {
        assert(all.subrange(off, off + w.len() as int)[a + k] == w[a + k]);
    }
    assert(all.subrange(off + a, off + b) =~= w.subrange(a, b));
}

/// The pairs of a serialized table are read back exactly, in order, from
/// wherever its bytes stand inside a larger byte string.
pub proof fn lemma_parse_entries_embedded(all: Seq<u8>, off: int, entries: Seq<(u32, Seq<char>)>)
    requires
        0 <= off,
        off + entries_wire(entries).len() <= all.len(),
        all.subrange(off, off + entries_wire(entries).len() as int) == entries_wire(entries),
        forall|i: int| 0 <= i < entries.len() ==> ticker_fits((#[trigger] entries[i]).1),
    ensures
        parse_entries(all, off, entries.len() as nat) == Some(
            (entries, off + entries_wire(entries).len() as int),
        ),
    decreases entries.len(),
{
    lemma_auto_spec_u32_to_from_le_bytes();
    if entries.len() == 0 {
        assert(entries =~= Seq::<(u32, Seq<char>)>::empty());
    } else {
        let id = entries[0].0;
        let t = entries[0].1;
        let eb = encode_utf8(t);
        vstd::utf8::encode_utf8_valid_utf8(t);
        vstd::utf8::encode_utf8_decode_utf8(t);
        let ew = entry_wire(id, t);
        let rest = entries.drop_first();
        let w = entries_wire(entries);
        let wlen = w.len() as int;
        assert(ew.len() == 8 + eb.len());
        assert(w == ew + entries_wire(rest));
        lemma_embedded_subrange(all, off, w, 0, 4);
        assert(w.subrange(0, 4) =~= spec_u32_to_le_bytes(id));
        lemma_embedded_subrange(all, off, w, 4, 8);
        assert(w.subrange(4, 8) =~= spec_u32_to_le_bytes(eb.len() as u32));
        lemma_embedded_subrange(all, off, w, 8, 8 + eb.len() as int);
        assert(w.subrange(8, 8 + eb.len() as int) =~= eb);
        assert(all.subrange(off, off + 4) == spec_u32_to_le_bytes(id));
        assert(all.subrange(off + 4, off + 8) == spec_u32_to_le_bytes(eb.len() as u32));
        assert(all.subrange(off + 8, off + 8 + eb.len() as int) == eb);
        let off2 = off + 8 + eb.len() as int;
        lemma_embedded_subrange(all, off, w, 8 + eb.len() as int, wlen);
        assert(w.subrange(8 + eb.len() as int, wlen) =~= entries_wire(rest));
        assert(all.subrange(off2, off2 + entries_wire(rest).len() as int) == entries_wire(rest));
        assert(forall|i: int|
            0 <= i < rest.len() ==> ticker_fits((#[trigger] rest[i]).1)) by {
            assert(forall|i: int| 0 <= i < rest.len() ==> rest[i] == entries[i + 1]);
        }
        lemma_parse_entries_embedded(all, off2, rest);
        assert(seq![(id, decode_utf8(all.subrange(off + 8, off + 8 + eb.len() as int)))] + rest
            =~= entries);
        assert(parse_entries(all, off, entries.len() as nat) == Some(
            (entries, off + wlen),
        ));
    }
}

/// Serializing a table and deserializing the bytes round-trips all
/// `(id, ticker)` pairs: the wire parses back to the same pairs in the
/// same order, and — since a table binds each id at most once — binding
/// them again in order reproduces the table unchanged.
pub proof fn lemma_symbol_map_round_trip(entries: Seq<(u32, Seq<char>)>)
    requires
        serializable(entries),
    ensures
        parse_sym_map(sym_map_wire(entries), 0) == Some(
            (entries, sym_map_wire(entries).len() as int),
        ),
        keys_unique(entries) ==> collapse_entries(entries) == entries,
{
    if keys_unique(entries) {
        lemma_collapse_identity(entries);
    }
    lemma_auto_spec_u32_to_from_le_bytes();
    let all = sym_map_wire(entries);
    assert(all.subrange(0, 4) =~= spec_u32_to_le_bytes(entries.len() as u32));
    assert(all.subrange(4, 4 + entries_wire(entries).len() as int) =~= entries_wire(entries));
    lemma_parse_entries_embedded(all, 4, entries);
    assert(spec_u32_from_le_bytes(all.subrange(0, 4)) as nat == entries.len());
}

} // verus!
