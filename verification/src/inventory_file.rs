//! The persisted form of the host inventory: a comma-separated table
//! under a header, one host on each row.

use vstd::prelude::*;
use crate::inventory::{hosts_of, Host, HostInventory, HostText, InventoryError};
use crate::text::texts_of;

verus! {

/// The header of the first column.
pub const HOSTNAME_COLUMN: &'static str = "hostname";

/// The header of the second column.
pub const DESCRIPTION_COLUMN: &'static str = "description";

/// The header of the third column.
pub const LAST_CONNECTED_COLUMN: &'static str = "last_connected";

/// The persisted form of an inventory without hosts.
pub const EMPTY_INVENTORY: &'static str = "hostname,description\n";

/// The rows that the `csv` reader yields for `text`, its first row taken
/// as the header and left out; `None` where the reader reports an error.
pub uninterp spec fn csv_records(text: Seq<char>) -> Option<Seq<Seq<Seq<char>>>>;

/// The bytes that the `csv` writer emits for `rows`; `None` where the
/// writer reports an error.
pub uninterp spec fn csv_bytes(rows: Seq<Seq<Seq<char>>>) -> Option<Seq<u8>>;

/// What a list of rows stands for in contracts.
pub open spec fn rows_of(rows: Seq<Vec<String>>) -> Seq<Seq<Seq<char>>> {
    Seq::new(rows.len(), |i: int| texts_of(rows[i]@))
}

/// Reads `text` with `csv::Reader`, built by `csv::ReaderBuilder` with
/// headers on: the records after the header, each as its fields, or
/// nothing when a record is in error.
#[verifier::external_body]
fn read_records(text: &str) -> (rows: Option<Vec<Vec<String>>>)
    ensures
        match rows {
            Some(r) => csv_records(text@) == Some(rows_of(r@)),
            None => csv_records(text@).is_none(),
        },
{
    let mut reader = csv::ReaderBuilder::new().has_headers(true).from_reader(text.as_bytes());
    let mut rows: Vec<Vec<String>> = Vec::new();
    for record in reader.records() {
        match record {
            Ok(fields) => rows.push(fields.iter().map(|field| field.to_string()).collect()),
            Err(_) => return None,
        }
    }
    Some(rows)
}

/// Writes `rows` with `csv::Writer`, built by `csv::WriterBuilder` over
/// a byte vector: the bytes written, or nothing when a record is
/// refused.
#[verifier::external_body]
fn write_records(rows: &Vec<Vec<String>>) -> (bytes: Option<Vec<u8>>)
    ensures
        match bytes {
            Some(b) => csv_bytes(rows_of(rows@)) == Some(b@),
            None => csv_bytes(rows_of(rows@)).is_none(),
        },
{
    let mut writer = csv::WriterBuilder::new().from_writer(Vec::new());
    for row in rows {
        if writer.write_record(row).is_err() {
            return None;
        }
    }
    writer.into_inner().ok()
}

/// The host that a row describes: none for a row of fewer than two
/// fields; never connected to where the third field is missing or empty.
pub open spec fn host_of_record(row: Seq<Seq<char>>) -> Option<HostText> {
    if row.len() >= 2 {
        Some(
            HostText {
                hostname: row[0],
                description: row[1],
                last_connected: if row.len() >= 3 && row[2].len() > 0 {
                    Some(row[2])
                } else {
                    None
                },
            },
        )
    } else {
        None
    }
}

/// The hosts that rows describe, in the order of the rows.
pub open spec fn hosts_of_records(rows: Seq<Seq<Seq<char>>>) -> Seq<HostText> {
    rows.filter_map(|row: Seq<Seq<char>>| host_of_record(row))
}

/// The row of a host: its name, its description, and when it was last
/// connected to, empty if never.
pub open spec fn record_of(host: HostText) -> Seq<Seq<char>> {
    seq![
        host.hostname,
        host.description,
        match host.last_connected {
            Some(stamp) => stamp,
            None => Seq::empty(),
        },
    ]
}

/// The table of an inventory: the header of three columns, then the row
/// of each host.
pub open spec fn records_of(hosts: Seq<HostText>) -> Seq<Seq<Seq<char>>> {
    seq![seq![HOSTNAME_COLUMN@, DESCRIPTION_COLUMN@, LAST_CONNECTED_COLUMN@]] + hosts.map_values(
        |host: HostText| record_of(host),
    )
}

/// The table of discovered hosts: the header of two columns, then the
/// name and the description of each host.
pub open spec fn discovered_records_of(hosts: Seq<HostText>) -> Seq<Seq<Seq<char>>> {
    seq![seq![HOSTNAME_COLUMN@, DESCRIPTION_COLUMN@]] + hosts.map_values(
        |host: HostText| seq![host.hostname, host.description],
    )
}

/// The hosts that `rows` describe.
pub fn hosts_from_records(rows: &Vec<Vec<String>>) -> (hosts: Vec<Host>)
    ensures
        hosts_of(hosts@) == hosts_of_records(rows_of(rows@)),
{
    let ghost all = rows_of(rows@);
    let ghost describe = |row: Seq<Seq<char>>| host_of_record(row);
    let mut hosts: Vec<Host> = Vec::new();
    let mut i: usize = 0;
    proof {
        assert(all.take(0) =~= Seq::<Seq<Seq<char>>>::empty());
        reveal(Seq::filter_map);
        assert(hosts_of(hosts@) =~= all.take(0).filter_map(describe));
    }
    while i < rows.len()
        invariant
            i <= rows@.len(),
            all == rows_of(rows@),
            describe == |row: Seq<Seq<char>>| host_of_record(row),
            hosts_of(hosts@) == all.take(i as int).filter_map(describe),
        decreases rows@.len() - i,
    {
        let ghost held = hosts_of(hosts@);
        proof {
            assert(all.take(i + 1).drop_last() =~= all.take(i as int));
            assert(all.take(i + 1).last() == texts_of(rows@[i as int]@));
            reveal(Seq::filter_map);
        }
        let row = &rows[i];
        if row.len() >= 2 {
            let last_connected = if row.len() >= 3 && !row[2].as_str().is_empty() {
                Some(row[2].clone())
            } else {
                None
            };
            let host = Host {
                hostname: row[0].clone(),
                description: row[1].clone(),
                last_connected,
            };
            hosts.push(host);
            assert(hosts_of(hosts@) =~= held.push(host@));
        }
        i += 1;
    }
    assert(all.take(i as int) =~= all);
    hosts
}

/// The table of `hosts`, with the column of the last connection.
pub fn records_from_hosts(hosts: &Vec<Host>) -> (rows: Vec<Vec<String>>)
    ensures
        rows_of(rows@) == records_of(hosts_of(hosts@)),
{
    let mut header: Vec<String> = Vec::new();
    header.push(String::from_str(HOSTNAME_COLUMN));
    header.push(String::from_str(DESCRIPTION_COLUMN));
    header.push(String::from_str(LAST_CONNECTED_COLUMN));
    assert(texts_of(header@) =~= seq![
        HOSTNAME_COLUMN@,
        DESCRIPTION_COLUMN@,
        LAST_CONNECTED_COLUMN@,
    ]);
    let mut rows: Vec<Vec<String>> = Vec::new();
    rows.push(header);
    let ghost all = hosts_of(hosts@);
    let ghost row_of = |host: HostText| record_of(host);
    let mut i: usize = 0;
    assert(rows_of(rows@) =~= records_of(all.take(0)));
    while i < hosts.len()
        invariant
            i <= hosts@.len(),
            all == hosts_of(hosts@),
            rows_of(rows@) == records_of(all.take(i as int)),
        decreases hosts@.len() - i,
    {
        let ghost held = rows_of(rows@);
        let host = &hosts[i];
        let mut row: Vec<String> = Vec::new();
        row.push(host.hostname.clone());
        row.push(host.description.clone());
        row.push(
            match &host.last_connected {
                Some(stamp) => stamp.clone(),
                None => String::new(),
            },
        );
        assert(texts_of(row@) =~= record_of(host@));
        rows.push(row);
        assert(rows_of(rows@) =~= held.push(record_of(host@)));
        assert(records_of(all.take(i + 1)) =~= records_of(all.take(i as int)).push(
            record_of(all[i as int]),
        ));
        i += 1;
    }
    assert(all.take(i as int) =~= all);
    rows
}

/// The table of `hosts` as a scan writes it: name and description only.
pub fn discovered_records_from_hosts(hosts: &Vec<Host>) -> (rows: Vec<Vec<String>>)
    ensures
        rows_of(rows@) == discovered_records_of(hosts_of(hosts@)),
{
    let mut header: Vec<String> = Vec::new();
    header.push(String::from_str(HOSTNAME_COLUMN));
    header.push(String::from_str(DESCRIPTION_COLUMN));
    assert(texts_of(header@) =~= seq![HOSTNAME_COLUMN@, DESCRIPTION_COLUMN@]);
    let mut rows: Vec<Vec<String>> = Vec::new();
    rows.push(header);
    let ghost all = hosts_of(hosts@);
    let mut i: usize = 0;
    assert(rows_of(rows@) =~= discovered_records_of(all.take(0)));
    while i < hosts.len()
        invariant
            i <= hosts@.len(),
            all == hosts_of(hosts@),
            rows_of(rows@) == discovered_records_of(all.take(i as int)),
        decreases hosts@.len() - i,
    {
        let ghost held = rows_of(rows@);
        let host = &hosts[i];
        let mut row: Vec<String> = Vec::new();
        row.push(host.hostname.clone());
        row.push(host.description.clone());
        assert(texts_of(row@) =~= seq![host@.hostname, host@.description]);
        rows.push(row);
        assert(rows_of(rows@) =~= held.push(seq![host@.hostname, host@.description]));
        assert(discovered_records_of(all.take(i + 1)) =~= discovered_records_of(
            all.take(i as int),
        ).push(seq![all[i as int].hostname, all[i as int].description]));
        i += 1;
    }
    assert(all.take(i as int) =~= all);
    rows
}

/// The rows of a table after its header. A table whose rows differ in
/// their number of fields is malformed.
pub fn parse_table(text: &str) -> (result: Result<Vec<Vec<String>>, InventoryError>)
    ensures
        match csv_records(text@) {
            Some(rows) => result matches Ok(r) && rows_of(r@) == rows,
            None => result matches Err(e) && e == InventoryError::Malformed,
        },
{
    match read_records(text) {
        Some(rows) => Ok(rows),
        None => Err(InventoryError::Malformed),
    }
}

/// The table that holds `rows`. Rows that differ in their number of
/// fields cannot be written.
pub fn render_table(rows: &Vec<Vec<String>>) -> (result: Result<Vec<u8>, InventoryError>)
    ensures
        match csv_bytes(rows_of(rows@)) {
            Some(bytes) => result matches Ok(b) && b@ == bytes,
            None => result matches Err(e) && e == InventoryError::Unwritable,
        },
{
    match write_records(rows) {
        Some(bytes) => Ok(bytes),
        None => Err(InventoryError::Unwritable),
    }
}

/// Reads an inventory from its persisted form.
pub fn parse_inventory(text: &str) -> (result: Result<HostInventory, InventoryError>)
    ensures
        match csv_records(text@) {
            Some(rows) => result matches Ok(inventory) && inventory@ == hosts_of_records(rows),
            None => result matches Err(e) && e == InventoryError::Malformed,
        },
{
    match parse_table(text) {
        Ok(rows) => Ok(HostInventory { hosts: hosts_from_records(&rows) }),
        Err(e) => Err(e),
    }
}

/// Reads an inventory from the contents of its file: an inventory
/// without hosts where there is no file.
pub fn load_inventory(contents: Option<&str>) -> (result: Result<HostInventory, InventoryError>)
    ensures
        match contents {
            None => result matches Ok(inventory) && inventory@ == Seq::<HostText>::empty(),
            Some(text) => match csv_records(text@) {
                Some(rows) => result matches Ok(inventory) && inventory@ == hosts_of_records(
                    rows,
                ),
                None => result matches Err(e) && e == InventoryError::Malformed,
            },
        },
{
    match contents {
        None => Ok(HostInventory::new()),
        Some(text) => parse_inventory(text),
    }
}

/// Puts an inventory into its persisted form.
pub fn render_inventory(inventory: &HostInventory) -> (result: Result<Vec<u8>, InventoryError>)
    ensures
        match csv_bytes(records_of(inventory@)) {
            Some(bytes) => result matches Ok(b) && b@ == bytes,
            None => result matches Err(e) && e == InventoryError::Unwritable,
        },
{
    let rows = records_from_hosts(&inventory.hosts);
    render_table(&rows)
}

/// Puts discovered hosts into the persisted form of an inventory.
pub fn render_discovered(hosts: &Vec<Host>) -> (result: Result<Vec<u8>, InventoryError>)
    ensures
        match csv_bytes(discovered_records_of(hosts_of(hosts@))) {
            Some(bytes) => result matches Ok(b) && b@ == bytes,
            None => result matches Err(e) && e == InventoryError::Unwritable,
        },
{
    let rows = discovered_records_from_hosts(hosts);
    render_table(&rows)
}

} // verus!
