use vstd::prelude::*;

use crate::text::{hex2, hex_value, is_upper_hex, push_hex2};

verus! {

/// Why a hardware-address prefix could not be derived.
#[derive(Debug, Clone, Copy, PartialEq, Eq, Structural)]
pub enum OuiError {
    /// The hardware address does not have exactly six bytes.
    InvalidLength,
}

/// The organisationally unique identifier of a hardware address: its first
/// three bytes as six uppercase hexadecimal digits.
pub open spec fn oui_text(mac: Seq<u8>) -> Seq<char> {
    hex2(mac[0]) + hex2(mac[1]) + hex2(mac[2])
}

/// Derives the registry prefix of a six-byte hardware address.
pub fn get_vendor_oui(mac: &[u8]) -> (r: Result<String, OuiError>)
    ensures
        mac@.len() != 6 ==> r == Err::<String, OuiError>(OuiError::InvalidLength),
        mac@.len() == 6 ==> r is Ok && r->Ok_0@ == oui_text(mac@),
{
    if mac.len() != 6 {
        return Err(OuiError::InvalidLength);
    }
    let mut oui = String::new();
    push_hex2(&mut oui, mac[0]);
    push_hex2(&mut oui, mac[1]);
    push_hex2(&mut oui, mac[2]);
    Ok(oui)
}

/// A derived prefix is six uppercase hexadecimal digits, two per byte, each
/// pair spelling out its byte with a leading zero where the byte is below 16.
pub proof fn lemma_oui_shape(mac: Seq<u8>)
    requires
        mac.len() == 6,
    ensures
        oui_text(mac).len() == 6,
        forall|i: int| 0 <= i < 6 ==> #[trigger] is_upper_hex(oui_text(mac)[i]),
        forall|k: int|
            0 <= k < 3 ==> hex_value(oui_text(mac)[2 * k]) * 16 + hex_value(oui_text(mac)[2 * k + 1])
                == mac[k] as int,
{
    let t = oui_text(mac);
    assert forall|k: int| 0 <= k < 3 implies {
        &&& is_upper_hex(t[2 * k])
        &&& is_upper_hex(t[2 * k + 1])
        &&& hex_value(t[2 * k]) * 16 + hex_value(t[2 * k + 1]) == mac[k] as int
    } by {
        assert(t[2 * k] == hex2(mac[k])[0]);
        assert(t[2 * k + 1] == hex2(mac[k])[1]);
        lemma_hex2_value(mac[k]);
    }
    assert forall|i: int| 0 <= i < 6 implies #[trigger] is_upper_hex(t[i]) by {
        let k = i / 2;
        assert(i == 2 * k || i == 2 * k + 1);
    }
}

proof fn lemma_hex_digit(d: int)
    requires
        0 <= d < 16,
    ensures
        is_upper_hex(crate::text::hex_digit(d)),
        hex_value(crate::text::hex_digit(d)) == d,
{
}

proof fn lemma_hex2_value(b: u8)
    ensures
        is_upper_hex(hex2(b)[0]),
        is_upper_hex(hex2(b)[1]),
        hex_value(hex2(b)[0]) * 16 + hex_value(hex2(b)[1]) == b as int,
{
    lemma_hex_digit(b as int / 16);
    lemma_hex_digit(b as int % 16);
}


/// The error type of the csv crate, carried opaquely out of a failed read.
#[verifier::external_type_specification]
#[verifier::external_body]
pub struct ExCsvError(csv::Error);

/// What the csv reader yields for a byte stream whose first row is a header:
/// the fields of each later row, or nothing where a row is malformed.
pub uninterp spec fn csv_records(bytes: Seq<u8>) -> Option<Seq<Seq<Seq<char>>>>;

/// Relies on `csv::ReaderBuilder` with a header row and `Reader::records`:
/// every record after the header, as its fields, or the first error met.
#[verifier::external_body]
fn read_csv_records(bytes: &[u8]) -> (r: Result<Vec<Vec<String>>, csv::Error>)
    ensures
        r is Ok <==> csv_records(bytes@) is Some,
        r is Ok ==> csv_records(bytes@) == Some(r->Ok_0.deep_view()),
{
    csv::ReaderBuilder::new()
        .has_headers(true)
        .from_reader(bytes)
        .records()
        .map(|rec| rec.map(|fields| fields.iter().map(String::from).collect()))
        .collect()
}

/// Why a vendor registry could not be loaded.
#[derive(Debug, Clone, Copy, PartialEq, Eq, Structural)]
pub enum RegistryError {
    /// A row of the registry is not valid tabular text.
    MalformedRecord,
}

/// Column of a registry row that holds the six-digit assignment prefix.
pub const PREFIX_COLUMN: usize = 1;

/// Column of a registry row that holds the organisation name.
pub const NAME_COLUMN: usize = 2;

/// The organisation name given to a row that has no name column.
pub open spec fn missing_name() -> Seq<char> {
    "(no vendor)"@
}

/// The (prefix, organisation) pair that a registry row stands for.
pub open spec fn record_of(row: Seq<Seq<char>>) -> (Seq<char>, Seq<char>) {
    (
        if row.len() > PREFIX_COLUMN { row[PREFIX_COLUMN as int] } else { Seq::empty() },
        if row.len() > NAME_COLUMN { row[NAME_COLUMN as int] } else { missing_name() },
    )
}

/// The organisation of the first record whose prefix is `oui`.
pub open spec fn first_match(table: Seq<(Seq<char>, Seq<char>)>, oui: Seq<char>) -> Option<Seq<char>>
    decreases table.len(),
{
    if table.len() == 0 {
        None
    } else if table[0].0 == oui {
        Some(table[0].1)
    } else {
        first_match(table.drop_first(), oui)
    }
}

/// One registry record: an assignment prefix and its organisation.
pub struct VendorRecord {
    pub prefix: String,
    pub organization: String,
}

/// A manufacturer-prefix registry held in memory, in the order of its source.
pub struct Vendor {
    records: Vec<VendorRecord>,
}

impl View for Vendor {
    type V = Seq<(Seq<char>, Seq<char>)>;

    closed spec fn view(&self) -> Seq<(Seq<char>, Seq<char>)> {
        self.records@.map_values(|r: VendorRecord| (r.prefix@, r.organization@))
    }
}

fn field_or(row: &Vec<String>, column: usize, fallback: &str) -> (r: String)
    ensures
        r@ == (if row@.len() > column { row@[column as int]@ } else { fallback@ }),
{
    if row.len() > column {
        row[column].clone()
    } else {
        fallback.to_owned()
    }
}

impl Vendor {
    /// Loads a registry from tabular text with a header row; a malformed row
    /// anywhere makes the whole load fail.
    pub fn new(registry: &[u8]) -> (r: Result<Vendor, RegistryError>)
        ensures
            r is Err <==> csv_records(registry@) is None,
            r is Err ==> r == Err::<Vendor, RegistryError>(RegistryError::MalformedRecord),
            r is Ok ==> r->Ok_0@ == csv_records(registry@)->0.map_values(|row| record_of(row)),
    {
        match read_csv_records(registry) {
            Ok(rows) => Ok(Vendor::from_rows(rows)),
            Err(_) => Err(RegistryError::MalformedRecord),
        }
    }

    /// Builds a registry from rows already split into fields, in order: the
    /// prefix from the second field (empty where missing) and the
    /// organisation from the third (a placeholder where missing).
    pub fn from_rows(rows: Vec<Vec<String>>) -> (v: Vendor)
        ensures
            v@ == rows.deep_view().map_values(|row| record_of(row)),
    {
        let ghost table = rows.deep_view();
        let mut records: Vec<VendorRecord> = Vec::new();
        let mut i: usize = 0;
        while i < rows.len()
            invariant
                i <= rows@.len(),
                table == rows.deep_view(),
                records@.len() == i,
                forall|j: int|
                    0 <= j < i ==> ((#[trigger] records@[j]).prefix@, records@[j].organization@)
                        == record_of(table[j]),
            decreases rows@.len() - i,
        {
            let row = &rows[i];
            assert(row.deep_view() == table[i as int]);
            let prefix = field_or(row, PREFIX_COLUMN, "");
            let organization = field_or(row, NAME_COLUMN, "(no vendor)");
            proof {
                reveal_strlit("");
                reveal_strlit("(no vendor)");
                assert(table[i as int].len() == row@.len());
                assert(row@.len() > PREFIX_COLUMN ==> row@[PREFIX_COLUMN as int]@ == table[i as int][PREFIX_COLUMN as int]);
                assert(row@.len() > NAME_COLUMN ==> row@[NAME_COLUMN as int]@ == table[i as int][NAME_COLUMN as int]);
            }
            records.push(VendorRecord { prefix, organization });
            i = i + 1;
        }
        let v = Vendor { records };
        assert(v@ =~= table.map_values(|row| record_of(row)));
        v
    }

    /// Number of records in the registry.
    pub fn len(&self) -> (n: usize)
        ensures
            n == self@.len(),
    {
        self.records.len()
    }

    /// The organisation registered for the prefix `vendor_oui`: the first
    /// record with that prefix wins. The registry itself is left as it is, so
    /// the answer depends on the registry and the prefix alone.
    pub fn search_by_mac(&self, vendor_oui: &str) -> (r: Option<String>)
        ensures
            r matches Some(name) ==> first_match(self@, vendor_oui@) == Some(name@),
            r is None ==> first_match(self@, vendor_oui@) is None,
    {
        let key = vendor_oui.to_owned();
        assert(self@.subrange(0, self@.len() as int) =~= self@);
        let mut i: usize = 0;
        while i < self.records.len()
            invariant
                i <= self@.len(),
                key@ == vendor_oui@,
                first_match(self@, key@) == first_match(self@.subrange(i as int, self@.len() as int), key@),
            decreases self@.len() - i,
        {
            let ghost rest = self@.subrange(i as int, self@.len() as int);
            assert(rest.drop_first() =~= self@.subrange(i + 1, self@.len() as int));
            assert(rest[0] == (self.records@[i as int].prefix@, self.records@[i as int].organization@));
            if self.records[i].prefix == key {
                return Some(self.records[i].organization.clone());
            }
            i = i + 1;
        }
        assert(self@.subrange(i as int, self@.len() as int).len() == 0);
        None
    }
}

/// First-match semantics: the prefix `oui` resolves to `name` exactly when
/// some record pairs them and no earlier record carries the same prefix.
pub proof fn lemma_first_match_wins(table: Seq<(Seq<char>, Seq<char>)>, oui: Seq<char>, name: Seq<char>)
    ensures
        first_match(table, oui) == Some(name) <==> exists|i: int|
            0 <= i < table.len() && #[trigger] table[i] == (oui, name) && forall|j: int|
                0 <= j < i ==> (#[trigger] table[j]).0 != oui,
    decreases table.len(),
{
    if table.len() > 0 {
        let rest = table.drop_first();
        lemma_first_match_wins(rest, oui, name);
        if first_match(table, oui) == Some(name) && table[0].0 != oui {
            let i = choose|i: int|
                0 <= i < rest.len() && #[trigger] rest[i] == (oui, name) && forall|j: int|
                    0 <= j < i ==> (#[trigger] rest[j]).0 != oui;
            assert(table[i + 1] == (oui, name));
            assert forall|j: int| 0 <= j < i + 1 implies (#[trigger] table[j]).0 != oui by {
                if j > 0 {
                    assert(table[j] == rest[j - 1]);
                }
            }
        }
        if exists|i: int|
            0 <= i < table.len() && #[trigger] table[i] == (oui, name) && forall|j: int|
                0 <= j < i ==> (#[trigger] table[j]).0 != oui {
            let i = choose|i: int|
                0 <= i < table.len() && #[trigger] table[i] == (oui, name) && forall|j: int|
                    0 <= j < i ==> (#[trigger] table[j]).0 != oui;
            if i > 0 {
                assert(table[0].0 != oui);
                assert(rest[i - 1] == (oui, name));
                assert forall|j: int| 0 <= j < i - 1 implies (#[trigger] rest[j]).0 != oui by {
                    assert(rest[j] == table[j + 1]);
                }
            }
        }
    }
}

} // verus!
