//! The file-service wire format: file names packed into message words, and
//! the paged root-directory listing.
use vstd::prelude::*;
use crate::wire::{byte_of, byte_or_zero, le_word, lemma_shift_cast};

verus! {

broadcast use vstd::seq_lib::group_seq_properties;

/// The longest file name a client may send.
pub const MAX_NAME_LEN: usize = 255;

/// Message words after the length word that carry a name of `len` bytes.
pub open spec fn name_words(len: int) -> int {
    (len + 7) / 8
}

/// A name a client may open: between 1 and `MAX_NAME_LEN` bytes.
pub open spec fn sendable(name: Seq<u8>) -> bool {
    0 < name.len() <= MAX_NAME_LEN
}

/// Word `n` of a message, 0 past its end.
pub open spec fn word_at(words: Seq<u64>, n: int) -> u64 {
    if 0 <= n < words.len() {
        words[n]
    } else {
        0
    }
}

/// The message words of an OPEN or STAT request for `name`: its length,
/// then its bytes, eight per word, least significant first; `None` for a
/// name the service cannot take.
pub fn pack_name(name: &[u8]) -> (words: Option<Vec<u64>>)
    ensures
        sendable(name@) <==> words is Some,
        words matches Some(w) ==> {
            &&& w@.len() == 1 + name_words(name@.len() as int)
            &&& w@[0] == name@.len()
            &&& forall|j: int, m: int| 1 <= j < w@.len() && 0 <= m < 8 ==>
                #[trigger] byte_of(w@[j], m) == byte_or_zero(name@, 8 * (j - 1) + m) as u64
        },
{
    if name.len() == 0 || name.len() > MAX_NAME_LEN {
        return None;
    }
    let count = (name.len() + 7) / 8;
    let mut words: Vec<u64> = Vec::new();
    words.push(name.len() as u64);
    let mut j: usize = 0;
    while j < count
        invariant
            count == name_words(name@.len() as int),
            name@.len() <= MAX_NAME_LEN,
            j <= count,
            words@.len() == 1 + j,
            words@[0] == name@.len(),
            forall|i: int, m: int| 1 <= i < words@.len() && 0 <= m < 8 ==>
                #[trigger] byte_of(words@[i], m) == byte_or_zero(name@, 8 * (i - 1) + m) as u64,
        decreases count - j,
    {
        let w = le_word(name, 8 * j);
        words.push(w);
        j = j + 1;
    }
    Some(words)
}

/// Byte `i` of the name a message carries.
pub open spec fn name_byte(words: Seq<u64>, i: int) -> u8 {
    byte_of(word_at(words, 1 + i / 8), i % 8) as u8
}

/// The name an OPEN or STAT request carries: `None` for a length of 0 or
/// beyond `MAX_NAME_LEN`. Words the message does not hold read as 0.
pub fn name_from_words(words: &[u64]) -> (name: Option<Vec<u8>>)
    ensures
        ({
            let length = word_at(words@, 0);
            if length == 0 || length > MAX_NAME_LEN {
                name is None
            } else {
                name matches Some(n) && n@.len() == length
                    && forall|i: int| 0 <= i < length ==> #[trigger] n@[i] == name_byte(words@, i)
            }
        }),
{
    let length: u64 = if words.len() > 0 { words[0] } else { 0 };
    if length == 0 || length > MAX_NAME_LEN as u64 {
        return None;
    }
    let length = length as usize;
    let mut name: Vec<u8> = Vec::new();
    let mut i: usize = 0;
    while i < length
        invariant
            length == word_at(words@, 0),
            length <= MAX_NAME_LEN,
            i <= length,
            name@.len() == i,
            forall|k: int| 0 <= k < i ==> #[trigger] name@[k] == name_byte(words@, k),
        decreases length - i,
    {
        let n = 1 + i / 8;
        let word: u64 = if n < words.len() { words[n] } else { 0 };
        proof {
            lemma_shift_cast(word, (i % 8) as int);
        }
        name.push((word >> (8 * (i % 8)) as u64) as u8);
        i = i + 1;
    }
    Some(name)
}

/// A name packed by `pack_name` reads back unchanged.
pub proof fn lemma_name_round_trip(name: Seq<u8>, words: Seq<u64>)
    requires
        sendable(name),
        words.len() == 1 + name_words(name.len() as int),
        words[0] == name.len(),
        forall|j: int, m: int| 1 <= j < words.len() && 0 <= m < 8 ==>
            #[trigger] byte_of(words[j], m) == byte_or_zero(name, 8 * (j - 1) + m) as u64,
    ensures
        word_at(words, 0) == name.len(),
        forall|i: int| 0 <= i < name.len() ==> #[trigger] name_byte(words, i) == name[i],
{
    assert forall|i: int| 0 <= i < name.len() implies #[trigger] name_byte(words, i) == name[i] by {
        let j = 1 + i / 8;
        let m = i % 8;
        assert(j < words.len());
        assert(8 * (j - 1) + m == i);
        assert(byte_of(words[j], m) == name[i] as u64);
    }
}

/// An ASCII letter in lower case; other bytes unchanged.
pub open spec fn ascii_lower(b: u8) -> u8 {
    if 65 <= b <= 90 { (b + 32) as u8 } else { b }
}

/// FAT names match without regard to ASCII case.
pub open spec fn same_name(a: Seq<u8>, b: Seq<u8>) -> bool {
    a.len() == b.len() && forall|i: int| 0 <= i < a.len() ==> #[trigger] ascii_lower(a[i]) == ascii_lower(b[i])
}

/// Whether a directory entry's name is the one asked for, ignoring ASCII
/// case (`hello` finds `HELLO`).
pub fn names_match(entry: &[u8], wanted: &[u8]) -> (b: bool)
    ensures
        b == same_name(entry@, wanted@),
{
    if entry.len() != wanted.len() {
        return false;
    }
    let mut i: usize = 0;
    while i < entry.len()
        invariant
            i <= entry@.len(),
            entry@.len() == wanted@.len(),
            forall|k: int| 0 <= k < i ==> #[trigger] ascii_lower(entry@[k]) == ascii_lower(wanted@[k]),
        decreases entry@.len() - i,
    {
        let a = entry[i];
        let b = wanted[i];
        let la = if 65 <= a && a <= 90 { a + 32 } else { a };
        let lb = if 65 <= b && b <= 90 { b + 32 } else { b };
        assert(la == ascii_lower(entry@[i as int]) && lb == ascii_lower(wanted@[i as int]));
        if la != lb {
            return false;
        }
        i = i + 1;
    }
    true
}

/// Root-directory entries whose names are longer than this are not listed.
pub const LISTED_NAME_MAX: usize = 12;

/// Records one READDIR page holds.
pub const DIR_ENTRIES_PER_PAGE: usize = 204;

/// A root-directory entry, as a backend reports it.
pub struct DirItem {
    pub name: Vec<u8>,
    pub size: u64,
    pub is_dir: bool,
}

/// One listing record: the name zero-padded to 12 bytes, the size cut to 32
/// bits and the directory flag.
#[derive(Clone, Copy, Debug)]
pub struct DirRecord {
    pub name: [u8; LISTED_NAME_MAX],
    pub size: u32,
    pub is_dir: u32,
}

/// An entry the listing shows: a name of 1 to 12 bytes, other than `.` and
/// `..`.
pub open spec fn listed(name: Seq<u8>) -> bool {
    &&& 0 < name.len() <= LISTED_NAME_MAX
    &&& name != seq![46u8]
    &&& name != seq![46u8, 46u8]
}

/// The listed entries, in directory order.
pub open spec fn shown() -> spec_fn(DirItem) -> bool {
    |e: DirItem| listed(e.name@)
}

/// `r` is the record of `e`.
pub open spec fn record_of(r: DirRecord, e: DirItem) -> bool {
    &&& forall|k: int| 0 <= k < LISTED_NAME_MAX ==> #[trigger] r.name@[k] == byte_or_zero(e.name@, k)
    &&& r.size == e.size as u32
    &&& r.is_dir == (if e.is_dir { 1u32 } else { 0u32 })
}

fn is_listed(name: &Vec<u8>) -> (b: bool)
    ensures
        b == listed(name@),
{
    if name.len() == 0 || name.len() > LISTED_NAME_MAX {
        return false;
    }
    if name.len() == 1 && name[0] == 46 {
        assert(name@ =~= seq![46u8]);
        return false;
    }
    if name.len() == 2 && name[0] == 46 && name[1] == 46 {
        assert(name@ =~= seq![46u8, 46u8]);
        return false;
    }
    proof {
        if name@ == seq![46u8] {
            assert(name@[0] == 46);
        }
        if name@ == seq![46u8, 46u8] {
            assert(name@[0] == 46 && name@[1] == 46);
        }
    }
    true
}

fn record(e: &DirItem) -> (r: DirRecord)
    requires
        e.name@.len() <= LISTED_NAME_MAX,
    ensures
        record_of(r, *e),
{
    let mut name = [0u8; LISTED_NAME_MAX];
    let mut k: usize = 0;
    while k < e.name.len()
        invariant
            k <= e.name@.len() <= LISTED_NAME_MAX,
            forall|i: int| 0 <= i < LISTED_NAME_MAX ==> #[trigger] name@[i] == if i < k {
                e.name@[i]
            } else {
                0
            },
        decreases e.name@.len() - k,
    {
        name[k] = e.name[k];
        k = k + 1;
    }
    DirRecord { name, size: e.size as u32, is_dir: if e.is_dir { 1 } else { 0 } }
}

/// One READDIR page: the listed entries from the `start`-th on, at most
/// `capacity` of them, and the index to ask for next (0 when this page
/// reaches the end).
pub fn dir_page(entries: &Vec<DirItem>, start: usize, capacity: usize) -> (page: (Vec<DirRecord>, u64))
    ensures
        ({
            let shown = entries@.filter(shown());
            let written = if shown.len() <= start {
                0
            } else if shown.len() - start < capacity {
                shown.len() - start
            } else {
                capacity as int
            };
            &&& page.0@.len() == written
            &&& forall|k: int| 0 <= k < written ==> record_of(#[trigger] page.0@[k], shown[start + k])
            &&& page.1 == (if shown.len() > start + capacity { (start + written) as u64 } else { 0 })
        }),
{
    let mut records: Vec<DirRecord> = Vec::new();
    let mut seen: usize = 0;
    let mut i: usize = 0;
    while i < entries.len()
        invariant
            i <= entries@.len(),
            seen == entries@.take(i as int).filter(shown()).len(),
            seen <= i,
            records@.len() == (if seen <= start {
                0
            } else if seen - start < capacity {
                seen - start
            } else {
                capacity as int
            }),
            forall|k: int| 0 <= k < records@.len() ==> record_of(#[trigger] records@[k], entries@.take(i as int).filter(shown())[start + k]),
        decreases entries@.len() - i,
    {
        let ghost prefix = entries@.take(i as int);
        proof {
            assert(entries@.take(i as int + 1) =~= prefix.push(entries@[i as int]));
            prefix.lemma_filter_push(entries@[i as int], shown());
        }
        if is_listed(&entries[i].name) {
            if seen >= start && seen - start < capacity {
                let r = record(&entries[i]);
                records.push(r);
            }
            seen = seen + 1;
        }
        i = i + 1;
    }
    proof {
        assert(entries@.take(i as int) =~= entries@);
    }
    let written = records.len();
    let next: u64 = if seen > start && seen - start > capacity { (start + written) as u64 } else { 0 };
    (records, next)
}

/// A READ request asks for 1 to 4096 bytes.
pub fn read_length_ok(length: u64) -> (b: bool)
    ensures
        b == (0 < length <= 0x1000),
{
    length != 0 && length <= 0x1000
}

} // verus!
