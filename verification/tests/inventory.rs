use quickrdp::clock::Moment;
use quickrdp::inventory::{Host, HostInventory, InventoryError};
use quickrdp::inventory_file::{
    discovered_records_from_hosts, hosts_from_records, load_inventory, parse_inventory, parse_table,
    records_from_hosts, render_discovered, render_inventory, render_table, EMPTY_INVENTORY,
};

fn host(name: &str, description: &str, last: Option<&str>) -> Host {
    Host {
        hostname: name.to_string(),
        description: description.to_string(),
        last_connected: last.map(|s| s.to_string()),
    }
}

fn row(fields: &[&str]) -> Vec<String> {
    fields.iter().map(|f| f.to_string()).collect()
}

fn sample() -> HostInventory {
    let mut inventory = HostInventory::new();
    inventory.upsert(host("alpha.corp.com", "Mail server", None)).unwrap();
    inventory.upsert(host("beta.corp.com", "Build box", Some("02/03/2024 10:11:12"))).unwrap();
    inventory.upsert(host("gamma.lab", "ALPHA test", None)).unwrap();
    inventory
}

#[test]
fn upsert_adds_a_new_host_at_the_end() {
    let inventory = sample();
    assert_eq!(
        inventory.list(),
        vec![
            host("alpha.corp.com", "Mail server", None),
            host("beta.corp.com", "Build box", Some("02/03/2024 10:11:12")),
            host("gamma.lab", "ALPHA test", None),
        ]
    );
}

#[test]
fn upsert_replaces_the_host_of_the_same_name() {
    let mut inventory = sample();
    assert_eq!(inventory.upsert(host("beta.corp.com", "Renamed", None)), Ok(()));
    assert_eq!(
        inventory.list(),
        vec![
            host("alpha.corp.com", "Mail server", None),
            host("beta.corp.com", "Renamed", None),
            host("gamma.lab", "ALPHA test", None),
        ]
    );
}

#[test]
fn upsert_refuses_a_blank_name() {
    let mut inventory = sample();
    let before = inventory.clone();
    assert_eq!(inventory.upsert(host("", "x", None)), Err(InventoryError::EmptyHostname));
    assert_eq!(inventory.upsert(host("  \t", "x", None)), Err(InventoryError::EmptyHostname));
    assert_eq!(inventory.upsert(host("\u{a0}\u{2003}", "x", None)), Err(InventoryError::EmptyHostname));
    assert_eq!(inventory, before);
    assert_eq!(inventory.upsert(host(" a ", "x", None)), Ok(()));
}

#[test]
fn remove_forgets_the_hosts_of_that_name() {
    let mut inventory = sample();
    inventory.hosts.push(host("alpha.corp.com", "Twin", None));
    inventory.remove("alpha.corp.com");
    assert_eq!(
        inventory.list(),
        vec![
            host("beta.corp.com", "Build box", Some("02/03/2024 10:11:12")),
            host("gamma.lab", "ALPHA test", None),
        ]
    );
    let before = inventory.clone();
    inventory.remove("unknown");
    assert_eq!(inventory, before);
}

#[test]
fn clear_and_replace() {
    let mut inventory = sample();
    inventory.replace(vec![host("only", "one", None)]);
    assert_eq!(inventory.list(), vec![host("only", "one", None)]);
    inventory.clear();
    assert_eq!(inventory.list(), Vec::<Host>::new());
}

#[test]
fn stamp_marks_the_first_host_of_that_name() {
    let mut inventory = sample();
    assert_eq!(inventory.stamp_last_connected("alpha.corp.com", "05/06/2024 07:08:09"), Ok(()));
    assert_eq!(
        inventory.list()[0],
        host("alpha.corp.com", "Mail server", Some("05/06/2024 07:08:09"))
    );
    assert_eq!(inventory.list()[1], host("beta.corp.com", "Build box", Some("02/03/2024 10:11:12")));
}

#[test]
fn stamp_of_an_unknown_host_fails() {
    let mut inventory = sample();
    let before = inventory.clone();
    assert_eq!(
        inventory.stamp_last_connected("delta", "05/06/2024 07:08:09"),
        Err(InventoryError::UnknownHost)
    );
    assert_eq!(inventory.stamp_now("delta", 0), Err(InventoryError::UnknownHost));
    assert_eq!(inventory, before);
}

#[test]
fn stamp_now_has_the_form_of_a_stamp() {
    let mut inventory = sample();
    assert_eq!(inventory.stamp_now("gamma.lab", 3600), Ok(()));
    let stamp = inventory.list()[2].last_connected.clone().unwrap();
    let bytes = stamp.as_bytes();
    assert_eq!(bytes.len(), 19);
    for (i, b) in bytes.iter().enumerate() {
        match i {
            2 | 5 => assert_eq!(*b, b'/'),
            10 => assert_eq!(*b, b' '),
            13 | 16 => assert_eq!(*b, b':'),
            _ => assert!(b.is_ascii_digit()),
        }
    }
}

#[test]
fn search_ignores_letter_case() {
    let inventory = sample();
    let names = |query: &str| -> Vec<String> {
        inventory.search(query).into_iter().map(|h| h.hostname).collect()
    };
    assert_eq!(names("ALPHA"), vec!["alpha.corp.com", "gamma.lab"]);
    assert_eq!(names("alpha"), vec!["alpha.corp.com", "gamma.lab"]);
    assert_eq!(names("build"), vec!["beta.corp.com"]);
    assert_eq!(names("Corp.Com"), vec!["alpha.corp.com", "beta.corp.com"]);
    assert_eq!(names(""), vec!["alpha.corp.com", "beta.corp.com", "gamma.lab"]);
    assert_eq!(names("zeta"), Vec::<String>::new());
    assert_eq!(names("alpha.corp.com.more"), Vec::<String>::new());
}

#[test]
fn inventory_error_messages() {
    assert_eq!(InventoryError::EmptyHostname.message(), "Hostname cannot be empty");
    assert_eq!(InventoryError::UnknownHost.message(), "Host not found in hosts list");
    assert_eq!(InventoryError::Malformed.message(), "Failed to parse CSV record");
    assert_eq!(InventoryError::Unwritable.message(), "Failed to write CSV record");
}

#[test]
fn rows_become_hosts() {
    let rows = vec![
        row(&["a", "first", "01/02/2024 03:04:05"]),
        row(&["b", "second", ""]),
        row(&["c", "third"]),
        row(&["lonely"]),
        row(&[]),
        row(&["d", "fourth", "x", "extra"]),
    ];
    assert_eq!(
        hosts_from_records(&rows),
        vec![
            host("a", "first", Some("01/02/2024 03:04:05")),
            host("b", "second", None),
            host("c", "third", None),
            host("d", "fourth", Some("x")),
        ]
    );
}

#[test]
fn hosts_become_rows() {
    let hosts = sample().list();
    assert_eq!(
        records_from_hosts(&hosts),
        vec![
            row(&["hostname", "description", "last_connected"]),
            row(&["alpha.corp.com", "Mail server", ""]),
            row(&["beta.corp.com", "Build box", "02/03/2024 10:11:12"]),
            row(&["gamma.lab", "ALPHA test", ""]),
        ]
    );
    assert_eq!(
        discovered_records_from_hosts(&hosts),
        vec![
            row(&["hostname", "description"]),
            row(&["alpha.corp.com", "Mail server"]),
            row(&["beta.corp.com", "Build box"]),
            row(&["gamma.lab", "ALPHA test"]),
        ]
    );
    assert_eq!(records_from_hosts(&vec![]), vec![row(&["hostname", "description", "last_connected"])]);
}

#[test]
fn inventory_is_parsed_from_its_table() {
    let text = "hostname,description,last_connected\n\
                a,first,01/02/2024 03:04:05\n\
                b,\"second, with comma\",\n";
    let inventory = parse_inventory(text).unwrap();
    assert_eq!(
        inventory.list(),
        vec![host("a", "first", Some("01/02/2024 03:04:05")), host("b", "second, with comma", None)]
    );
}

#[test]
fn table_of_two_columns_is_an_inventory() {
    let inventory = parse_inventory("hostname,description\nsrv1,One\nsrv2,\n").unwrap();
    assert_eq!(inventory.list(), vec![host("srv1", "One", None), host("srv2", "", None)]);
    assert_eq!(parse_inventory(EMPTY_INVENTORY).unwrap().list(), Vec::<Host>::new());
    assert_eq!(parse_inventory("").unwrap().list(), Vec::<Host>::new());
}

#[test]
fn ragged_table_is_malformed() {
    assert_eq!(
        parse_inventory("hostname,description\nsrv1,One,extra\n").err(),
        Some(InventoryError::Malformed)
    );
}

#[test]
fn inventory_is_rendered_as_a_table() {
    let bytes = render_inventory(&sample()).unwrap();
    assert_eq!(
        String::from_utf8(bytes).unwrap(),
        "hostname,description,last_connected\n\
         alpha.corp.com,Mail server,\n\
         beta.corp.com,Build box,02/03/2024 10:11:12\n\
         gamma.lab,ALPHA test,\n"
    );
}

#[test]
fn discovered_hosts_are_rendered_without_stamps() {
    let bytes = render_discovered(&sample().list()).unwrap();
    assert_eq!(
        String::from_utf8(bytes).unwrap(),
        "hostname,description\n\
         alpha.corp.com,Mail server\n\
         beta.corp.com,Build box\n\
         gamma.lab,ALPHA test\n"
    );
}

#[test]
fn rendered_inventory_parses_back() {
    let mut inventory = sample();
    inventory.upsert(host("quoted", "says \"hi\", twice", Some("x"))).unwrap();
    let text = String::from_utf8(render_inventory(&inventory).unwrap()).unwrap();
    assert_eq!(parse_inventory(&text), Ok(inventory));
}

#[test]
fn table_is_read_after_its_header() {
    assert_eq!(
        parse_table("h1,h2\na,b\n\"c,d\",e\n"),
        Ok(vec![row(&["a", "b"]), row(&["c,d", "e"])])
    );
    assert_eq!(parse_table("h1,h2\n"), Ok(vec![]));
    assert_eq!(parse_table("h1,h2\na\n"), Err(InventoryError::Malformed));
}

#[test]
fn table_is_written_with_quotes_where_needed() {
    let bytes = render_table(&vec![row(&["h1", "h2"]), row(&["a,b", "say \"x\""])]).unwrap();
    assert_eq!(String::from_utf8(bytes).unwrap(), "h1,h2\n\"a,b\",\"say \"\"x\"\"\"\n");
    assert_eq!(render_table(&vec![]), Ok(vec![]));
}

#[test]
fn ragged_table_cannot_be_written() {
    assert_eq!(
        render_table(&vec![row(&["h1", "h2"]), row(&["only"])]),
        Err(InventoryError::Unwritable)
    );
}

#[test]
fn stamp_at_a_moment() {
    let mut inventory = sample();
    let moment = Moment { seconds: 1_709_374_272, nanos: 345_000_000, utc_offset: 0 };
    assert_eq!(inventory.stamp_at("alpha.corp.com", &moment), Ok(()));
    assert_eq!(inventory.list()[0].last_connected, Some("02/03/2024 10:11:12".to_string()));
    let east = Moment { seconds: 1_709_374_272, nanos: 0, utc_offset: 5 * 3600 + 1800 };
    assert_eq!(inventory.stamp_at("gamma.lab", &east), Ok(()));
    assert_eq!(inventory.list()[2].last_connected, Some("02/03/2024 15:41:12".to_string()));
    let west = Moment { seconds: 1_709_374_272, nanos: 0, utc_offset: -11 * 3600 };
    assert_eq!(inventory.stamp_at("gamma.lab", &west), Ok(()));
    assert_eq!(inventory.list()[2].last_connected, Some("01/03/2024 23:11:12".to_string()));
    assert_eq!(inventory.stamp_at("delta", &moment), Err(InventoryError::UnknownHost));
}

#[test]
fn moment_that_cannot_be_told_stamps_nothing() {
    let mut inventory = sample();
    let before = inventory.clone();
    for moment in [
        Moment { seconds: -1, nanos: 0, utc_offset: 0 },
        Moment { seconds: 253_402_300_800, nanos: 0, utc_offset: 0 },
        Moment { seconds: 0, nanos: 1_000_000_000, utc_offset: 0 },
        Moment { seconds: 0, nanos: 0, utc_offset: 86_400 },
        Moment { seconds: 0, nanos: 0, utc_offset: -86_400 },
    ] {
        assert_eq!(moment.stamp(), None);
        assert_eq!(inventory.stamp_at("alpha.corp.com", &moment), Err(InventoryError::Undated));
        assert_eq!(inventory.stamp_at("delta", &moment), Err(InventoryError::Undated));
    }
    assert_eq!(inventory, before);
    assert_eq!(InventoryError::Undated.message(), "Failed to tell the time of the connection");
}

#[test]
fn moments_at_the_edges() {
    assert_eq!(
        Moment { seconds: 0, nanos: 0, utc_offset: 0 }.stamp(),
        Some("01/01/1970 00:00:00".to_string())
    );
    assert_eq!(
        Moment { seconds: 0, nanos: 0, utc_offset: -3600 }.stamp(),
        Some("31/12/1969 23:00:00".to_string())
    );
    assert_eq!(
        Moment { seconds: 253_402_300_799, nanos: 999_999_999, utc_offset: 0 }.stamp(),
        Some("31/12/9999 23:59:59".to_string())
    );
    assert_eq!(
        Moment { seconds: 253_402_300_799, nanos: 0, utc_offset: 86_399 }.stamp(),
        Some("01/01/+10000 23:59:58".to_string())
    );
    assert_eq!(
        Moment { seconds: 1_709_374_272, nanos: 345_678_901, utc_offset: 3600 }.diagnostics_time(),
        Some("2024-03-02 11:11:12.345".to_string())
    );
    assert!(Moment { seconds: 0, nanos: 0, utc_offset: 0 }.is_tellable());
    assert!(!Moment { seconds: -1, nanos: 0, utc_offset: 0 }.is_tellable());
}

#[test]
fn now_is_a_moment_that_can_be_told() {
    let moment = Moment::now(7200).unwrap();
    assert_eq!(moment.utc_offset, 7200);
    assert!(moment.seconds > 1_600_000_000);
    assert!(moment.is_tellable());
    assert_eq!(moment.stamp().map(|s| s.len()), Some(19));
    assert_eq!(moment.diagnostics_time().map(|s| s.len()), Some(23));
}

#[test]
fn missing_file_is_an_inventory_without_hosts() {
    assert_eq!(load_inventory(None).unwrap().list(), Vec::<Host>::new());
    assert_eq!(
        load_inventory(Some("hostname,description\nsrv1,One\n")).unwrap().list(),
        vec![host("srv1", "One", None)]
    );
    assert_eq!(
        load_inventory(Some("hostname,description\nsrv1\n")).err(),
        Some(InventoryError::Malformed)
    );
}
