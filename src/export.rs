//! Rendering of the frequency table as text: the comma-separated export
//! file and the single-string key of a fingerprint used by status queries.

use crate::fingerprint::PacketInfos;
use crate::shared::SonarState;
use crate::table::{rows_agree, FrequencyTable};
use vstd::prelude::*;

verus! {

/// First line of an export: the fingerprint's fields, then the counter.
pub const CSV_HEADER: &'static str = "mac_address_source,mac_address_destination,ethertype,count\n";

/// Lower-case hexadecimal digit of `d < 16`.
pub open spec fn hex_char(d: nat) -> char {
    if d < 10 {
        (d + 48) as char
    } else {
        (d + 87) as char
    }
}

/// Decimal digit of `d < 10`.
pub open spec fn dec_char(d: nat) -> char {
    (d + 48) as char
}

/// The two hexadecimal digits of the byte `b`.
pub open spec fn hex_byte(b: nat) -> Seq<char> {
    seq![hex_char(b / 16), hex_char(b % 16)]
}

/// The decimal digits of `n`, without leading zeros.
pub open spec fn decimal(n: nat) -> Seq<char>
    decreases n,
{
    if n < 10 {
        seq![dec_char(n)]
    } else {
        decimal(n / 10) + seq![dec_char(n % 10)]
    }
}

/// A hardware address as six colon-separated hexadecimal bytes, the most
/// significant first.
pub open spec fn mac_text(m: nat) -> Seq<char> {
    hex_byte(m / 0x100_0000_0000 % 256) + seq![':'] + hex_byte(m / 0x1_0000_0000 % 256) + seq![':']
        + hex_byte(m / 0x100_0000 % 256) + seq![':'] + hex_byte(m / 0x1_0000 % 256) + seq![':']
        + hex_byte(m / 0x100 % 256) + seq![':'] + hex_byte(m % 256)
}

/// An ethertype as `0x` and four hexadecimal digits.
pub open spec fn ethertype_text(e: nat) -> Seq<char> {
    seq!['0', 'x'] + hex_byte(e / 256 % 256) + hex_byte(e % 256)
}

/// One export record: the fields of the fingerprint, the counter, a newline.
pub open spec fn row_text(row: (PacketInfos, u64)) -> Seq<char> {
    mac_text(row.0.mac_address_source as nat) + seq![','] + mac_text(
        row.0.mac_address_destination as nat,
    ) + seq![','] + ethertype_text(row.0.ethertype as nat) + seq![','] + decimal(row.1 as nat)
        + seq!['\n']
}

/// The records of `rows`, in order.
pub open spec fn rows_text(rows: Seq<(PacketInfos, u64)>) -> Seq<char>
    decreases rows.len(),
{
    if rows.len() == 0 {
        Seq::empty()
    } else {
        rows_text(rows.drop_last()) + row_text(rows.last())
    }
}

/// A whole export: the header line, then one record per row.
pub open spec fn csv_text(rows: Seq<(PacketInfos, u64)>) -> Seq<char> {
    CSV_HEADER@ + rows_text(rows)
}

/// The single-string key under which a status query lists a fingerprint:
/// its fields joined by `-`.
pub open spec fn key_text(p: PacketInfos) -> Seq<char> {
    mac_text(p.mac_address_source as nat) + seq!['-'] + mac_text(p.mac_address_destination as nat)
        + seq!['-'] + ethertype_text(p.ethertype as nat)
}

/// Relies on String::push: appends the one character `c`.
#[verifier::external_body]
fn push_char(s: &mut String, c: char)
    ensures
        final(s)@ == old(s)@.push(c),
{
    s.push(c)
}

fn push_hex_byte(s: &mut String, b: u64)
    requires
        b < 256,
    ensures
        final(s)@ == old(s)@ + hex_byte(b as nat),
{
    let hi = (b / 16) as u8;
    let lo = (b % 16) as u8;
    let c_hi = if hi < 10 { (hi + 48) as char } else { (hi + 87) as char };
    let c_lo = if lo < 10 { (lo + 48) as char } else { (lo + 87) as char };
    push_char(s, c_hi);
    push_char(s, c_lo);
    assert(final(s)@ == old(s)@ + hex_byte(b as nat));
}

fn push_mac(s: &mut String, m: u64)
    ensures
        final(s)@ == old(s)@ + mac_text(m as nat),
{
    push_hex_byte(s, m / 0x100_0000_0000 % 256);
    push_char(s, ':');
    push_hex_byte(s, m / 0x1_0000_0000 % 256);
    push_char(s, ':');
    push_hex_byte(s, m / 0x100_0000 % 256);
    push_char(s, ':');
    push_hex_byte(s, m / 0x1_0000 % 256);
    push_char(s, ':');
    push_hex_byte(s, m / 0x100 % 256);
    push_char(s, ':');
    push_hex_byte(s, m % 256);
    assert(final(s)@ == old(s)@ + mac_text(m as nat));
}

fn push_ethertype(s: &mut String, e: u16)
    ensures
        final(s)@ == old(s)@ + ethertype_text(e as nat),
{
    push_char(s, '0');
    push_char(s, 'x');
    push_hex_byte(s, e as u64 / 256 % 256);
    push_hex_byte(s, e as u64 % 256);
    assert(final(s)@ == old(s)@ + ethertype_text(e as nat));
}

fn push_decimal(s: &mut String, n: u64)
    ensures
        final(s)@ == old(s)@ + decimal(n as nat),
    decreases n,
{
    if n >= 10 {
        push_decimal(s, n / 10);
    }
    let d = (n % 10) as u8;
    push_char(s, (d + 48) as char);
    assert(final(s)@ == old(s)@ + decimal(n as nat));
}

fn push_row(s: &mut String, row: (PacketInfos, u64))
    ensures
        final(s)@ == old(s)@ + row_text(row),
{
    push_mac(s, row.0.mac_address_source);
    push_char(s, ',');
    push_mac(s, row.0.mac_address_destination);
    push_char(s, ',');
    push_ethertype(s, row.0.ethertype);
    push_char(s, ',');
    push_decimal(s, row.1);
    push_char(s, '\n');
    assert(final(s)@ == old(s)@ + row_text(row));
}

/// The export text of `rows`: the header line, then one record per row in
/// the given order, fields separated by commas. No field can hold a comma,
/// a quote or a newline, so none is quoted. An empty table gives the header
/// line alone.
pub fn csv_of(rows: &Vec<(PacketInfos, u64)>) -> (r: String)
    ensures
        r@ == csv_text(rows@),
        rows@.len() == 0 ==> r@ == CSV_HEADER@,
{
    let mut r = String::from_str(CSV_HEADER);
    let mut i: usize = 0;
    while i < rows.len()
        invariant
            i <= rows@.len(),
            r@ == CSV_HEADER@ + rows_text(rows@.subrange(0, i as int)),
        decreases rows@.len() - i,
    {
        let ghost prefix = rows@.subrange(0, i as int + 1);
        assert(prefix.drop_last() == rows@.subrange(0, i as int));
        push_row(&mut r, rows[i]);
        assert(r@ == CSV_HEADER@ + rows_text(prefix));
        i = i + 1;
    }
    assert(rows@.subrange(0, rows@.len() as int) == rows@);
    r
}

/// The status-query key of `p`.
pub fn fingerprint_key(p: &PacketInfos) -> (r: String)
    ensures
        r@ == key_text(*p),
{
    let mut r = String::new();
    push_mac(&mut r, p.mac_address_source);
    push_char(&mut r, '-');
    push_mac(&mut r, p.mac_address_destination);
    push_char(&mut r, '-');
    push_ethertype(&mut r, p.ethertype);
    assert(r@ == key_text(*p));
    r
}

impl FrequencyTable {
    /// The export text of the table, its rows in stored order; the header
    /// line alone for an empty table.
    pub fn to_csv(&self) -> (r: String)
        requires
            self.wf(),
        ensures
            r@ == csv_text(self.rows()),
            self@ == Map::<PacketInfos, nat>::empty() ==> r@ == CSV_HEADER@,
    {
        let rows = self.snapshot();
        if rows.len() > 0 {
            assert(self@.contains_key(rows@[0].0));
        }
        csv_of(&rows)
    }
}

impl SonarState {
    /// The export text of a snapshot of the table. The lock is held only to
    /// take the snapshot, not while the text is built.
    pub fn export_csv(&self) -> (r: String)
        ensures
            exists|rows: Seq<(PacketInfos, u64)>, m: Map<PacketInfos, nat>|
                rows_agree(rows, m) && r@ == csv_text(rows),
    {
        let rows = self.snapshot();
        let r = csv_of(&rows);
        assert(rows_agree(rows@, choose|m: Map<PacketInfos, nat>| rows_agree(rows@, m)));
        r
    }

    /// The rows of a snapshot with each fingerprint rendered as its
    /// single-string key, in the snapshot's order.
    pub fn status_entries(&self) -> (r: Vec<(String, u64)>)
        ensures
            exists|rows: Seq<(PacketInfos, u64)>, m: Map<PacketInfos, nat>|
                rows_agree(rows, m) && r@.len() == rows.len() && forall|i: int|
                    0 <= i < rows.len() ==> (#[trigger] r@[i]).0@ == key_text(rows[i].0)
                        && r@[i].1 == rows[i].1,
    {
        let rows = self.snapshot();
        keyed_rows(&rows)
    }
}

/// `rows` with each fingerprint replaced by its status-query key.
pub fn keyed_rows(rows: &Vec<(PacketInfos, u64)>) -> (r: Vec<(String, u64)>)
    ensures
        r@.len() == rows@.len(),
        forall|i: int|
            0 <= i < rows@.len() ==> (#[trigger] r@[i]).0@ == key_text(rows@[i].0) && r@[i].1
                == rows@[i].1,
{
    let mut r: Vec<(String, u64)> = Vec::new();
    let mut i: usize = 0;
    while i < rows.len()
        invariant
            i <= rows@.len(),
            r@.len() == i,
            forall|j: int|
                0 <= j < i ==> (#[trigger] r@[j]).0@ == key_text(rows@[j].0) && r@[j].1
                    == rows@[j].1,
        decreases rows@.len() - i,
    {
        let key = fingerprint_key(&rows[i].0);
        r.push((key, rows[i].1));
        i = i + 1;
    }
    r
}

} // verus!
