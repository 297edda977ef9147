use glaciers::frequency::{match_by_frequency, reduce_catalog, signature_counts};
use glaciers::keys::Lookup;
use glaciers::records::bytes_equal;
use glaciers::{
    match_logs_by_topic0, match_logs_by_topic0_address, match_traces_by_4bytes,
    match_traces_by_4bytes_address, AbiEntry, LogRecord, MatchedRow, Resolution, TraceRecord,
};

const H1: u8 = 0x11;
const H2: u8 = 0x22;
const S1: u8 = 0x51;

fn hash32(tag: u8) -> Vec<u8> {
    vec![tag; 32]
}

fn selector(tag: u8) -> Vec<u8> {
    vec![tag; 4]
}

fn addr(tag: u8) -> Vec<u8> {
    vec![tag; 20]
}

fn log(topic0: u8, filled: usize, address: u8) -> LogRecord {
    let slot = |k: usize| if filled >= k { Some(hash32(0xF0 + k as u8)) } else { None };
    LogRecord {
        topic0: hash32(topic0),
        topic1: slot(1),
        topic2: slot(2),
        topic3: slot(3),
        address: addr(address),
    }
}

fn trace(sel: u8, to: u8) -> TraceRecord {
    TraceRecord { selector: selector(sel), action_to: addr(to) }
}

fn event(hash: u8, address: u8, arity: u32, signature: &str) -> AbiEntry {
    AbiEntry {
        hash: hash32(hash),
        address: addr(address),
        full_signature: signature.to_string(),
        name: signature.split('(').next().unwrap_or("").to_string(),
        anonymous: false,
        num_indexed_args: arity,
    }
}

fn function(sel: u8, address: u8, signature: &str) -> AbiEntry {
    AbiEntry {
        hash: selector(sel),
        address: addr(address),
        full_signature: signature.to_string(),
        name: signature.split('(').next().unwrap_or("").to_string(),
        anonymous: false,
        num_indexed_args: 0,
    }
}

fn signature_of(row: &MatchedRow, catalog: &[AbiEntry]) -> Option<String> {
    row.resolution.entry().map(|j| catalog[j].full_signature.clone())
}

fn transfer_and_approve() -> Vec<AbiEntry> {
    vec![
        event(H1, 0xAA, 2, "Transfer(address,uint256)"),
        event(H1, 0xBB, 2, "Approve(address,uint256)"),
    ]
}

#[test]
fn arity_counts_filled_topic_slots() {
    assert_eq!(log(H1, 0, 0xAA).num_indexed_args(), 1);
    assert_eq!(log(H1, 1, 0xAA).num_indexed_args(), 2);
    assert_eq!(log(H1, 2, 0xAA).num_indexed_args(), 3);
    assert_eq!(log(H1, 3, 0xAA).num_indexed_args(), 4);
}

#[test]
fn arity_counts_slots_wherever_they_are_filled() {
    let record = LogRecord {
        topic0: hash32(H1),
        topic1: None,
        topic2: None,
        topic3: Some(hash32(0xF3)),
        address: addr(0xAA),
    };
    assert_eq!(record.num_indexed_args(), 2);
    let record = LogRecord {
        topic0: hash32(H1),
        topic1: Some(vec![]),
        topic2: None,
        topic3: Some(hash32(0xF3)),
        address: addr(0xAA),
    };
    assert_eq!(record.num_indexed_args(), 3);
}

#[test]
fn log_with_known_address_is_address_matched() {
    let catalog = transfer_and_approve();
    let logs = vec![log(H1, 1, 0xAA)];
    let rows = match_logs_by_topic0(&logs, &catalog);
    assert_eq!(rows, vec![MatchedRow { record: 0, resolution: Resolution::AddressMatched(0) }]);
    assert_eq!(signature_of(&rows[0], &catalog).as_deref(), Some("Transfer(address,uint256)"));

    let logs = vec![log(H1, 1, 0xBB)];
    let rows = match_logs_by_topic0(&logs, &catalog);
    assert_eq!(rows, vec![MatchedRow { record: 0, resolution: Resolution::AddressMatched(1) }]);
    assert_eq!(signature_of(&rows[0], &catalog).as_deref(), Some("Approve(address,uint256)"));
}

#[test]
fn log_with_unknown_address_and_tied_candidates_gets_one_of_them() {
    let catalog = transfer_and_approve();
    let logs = vec![log(H1, 1, 0xCC)];
    let rows = match_logs_by_topic0(&logs, &catalog);
    assert_eq!(rows.len(), 1);
    assert_eq!(rows[0].record, 0);
    assert!(matches!(rows[0].resolution, Resolution::HashFallbackMatched(_)));
    let signature = signature_of(&rows[0], &catalog);
    assert!(
        signature.as_deref() == Some("Transfer(address,uint256)")
            || signature.as_deref() == Some("Approve(address,uint256)")
    );
    let again = match_logs_by_topic0(&logs, &catalog);
    assert_eq!(rows, again);
}

#[test]
fn tie_goes_to_the_signature_declared_first() {
    let catalog = transfer_and_approve();
    let rows = match_logs_by_topic0(&vec![log(H1, 1, 0xCC)], &catalog);
    assert_eq!(rows[0].resolution, Resolution::HashFallbackMatched(0));

    let swapped = vec![catalog[1].clone(), catalog[0].clone()];
    let rows = match_logs_by_topic0(&vec![log(H1, 1, 0xCC)], &swapped);
    assert_eq!(rows[0].resolution, Resolution::HashFallbackMatched(0));
    assert_eq!(signature_of(&rows[0], &swapped).as_deref(), Some("Approve(address,uint256)"));
}

#[test]
fn trace_with_unknown_address_falls_back_to_the_only_entry() {
    let catalog = vec![function(S1, 0xEE, "transfer(address,uint256)")];
    let traces = vec![trace(S1, 0xDD)];
    let rows = match_traces_by_4bytes(&traces, &catalog);
    assert_eq!(
        rows,
        vec![MatchedRow { record: 0, resolution: Resolution::HashFallbackMatched(0) }]
    );
    assert_eq!(signature_of(&rows[0], &catalog).as_deref(), Some("transfer(address,uint256)"));
}

#[test]
fn majority_signature_wins_the_fallback() {
    let catalog = vec![
        event(H1, 0x04, 2, "B"),
        event(H1, 0x01, 2, "A"),
        event(H1, 0x02, 2, "A"),
        event(H1, 0x03, 2, "A"),
    ];
    let rows = match_logs_by_topic0(&vec![log(H1, 1, 0xCC)], &catalog);
    assert_eq!(
        rows,
        vec![MatchedRow { record: 0, resolution: Resolution::HashFallbackMatched(1) }]
    );
    assert_eq!(signature_of(&rows[0], &catalog).as_deref(), Some("A"));
}

#[test]
fn majority_is_counted_per_arity() {
    let catalog = vec![
        event(H1, 0x01, 3, "A"),
        event(H1, 0x02, 3, "A"),
        event(H1, 0x03, 3, "A"),
        event(H1, 0x04, 2, "B"),
    ];
    let rows = match_logs_by_topic0(&vec![log(H1, 1, 0xCC)], &catalog);
    assert_eq!(rows[0].resolution, Resolution::HashFallbackMatched(3));
    let rows = match_logs_by_topic0(&vec![log(H1, 2, 0xCC)], &catalog);
    assert_eq!(rows[0].resolution, Resolution::HashFallbackMatched(0));
    let rows = match_logs_by_topic0(&vec![log(H1, 0, 0xCC)], &catalog);
    assert_eq!(rows[0].resolution, Resolution::Unmatched);
}

#[test]
fn single_candidate_is_taken_by_the_fallback() {
    let catalog = vec![
        event(H2, 0xAA, 2, "Other(uint256)"),
        event(H1, 0xAA, 3, "Transfer(address,address,uint256)"),
        event(H1, 0xBB, 2, "Transfer(address,uint256)"),
    ];
    let rows = match_logs_by_topic0(&vec![log(H1, 1, 0xAA)], &catalog);
    assert_eq!(
        rows,
        vec![MatchedRow { record: 0, resolution: Resolution::HashFallbackMatched(2) }]
    );
    assert_eq!(signature_of(&rows[0], &catalog).as_deref(), Some("Transfer(address,uint256)"));
}

#[test]
fn unknown_hash_stays_in_the_output_unmatched() {
    let catalog = transfer_and_approve();
    let logs = vec![log(H2, 1, 0xAA), log(H1, 1, 0xAA)];
    let rows = match_logs_by_topic0(&logs, &catalog);
    assert_eq!(
        rows,
        vec![
            MatchedRow { record: 1, resolution: Resolution::AddressMatched(0) },
            MatchedRow { record: 0, resolution: Resolution::Unmatched },
        ]
    );
    assert_eq!(signature_of(&rows[1], &catalog), None);

    let traces = vec![trace(0x77, 0xEE)];
    let functions = vec![function(S1, 0xEE, "transfer(address,uint256)")];
    let rows = match_traces_by_4bytes(&traces, &functions);
    assert_eq!(rows, vec![MatchedRow { record: 0, resolution: Resolution::Unmatched }]);
}

#[test]
fn row_count_equals_record_count_under_unique_keys() {
    let catalog = vec![
        event(H1, 0xAA, 2, "Transfer(address,uint256)"),
        event(H1, 0xBB, 2, "Approve(address,uint256)"),
        event(H1, 0xAA, 3, "Transfer(address,address,uint256)"),
        event(H2, 0xAA, 1, "Paused()"),
    ];
    let logs = vec![
        log(H1, 1, 0xAA),
        log(H1, 1, 0xCC),
        log(H1, 2, 0xAA),
        log(H2, 0, 0xDD),
        log(0x33, 3, 0xAA),
        log(H2, 3, 0xAA),
    ];
    assert_eq!(match_logs_by_topic0_address(&logs, &catalog).len(), logs.len());
    let rows = match_logs_by_topic0(&logs, &catalog);
    assert_eq!(rows.len(), logs.len());
    let mut seen: Vec<usize> = rows.iter().map(|row| row.record).collect();
    seen.sort();
    assert_eq!(seen, vec![0, 1, 2, 3, 4, 5]);

    let functions = vec![function(S1, 0xEE, "transfer(address,uint256)")];
    let traces = vec![trace(S1, 0xEE), trace(S1, 0xDD), trace(0x77, 0xEE)];
    assert_eq!(match_traces_by_4bytes_address(&traces, &functions).len(), traces.len());
    assert_eq!(match_traces_by_4bytes(&traces, &functions).len(), traces.len());
}

#[test]
fn address_match_keeps_the_order_of_the_records() {
    let catalog = transfer_and_approve();
    let logs = vec![log(H1, 1, 0xCC), log(H1, 1, 0xBB), log(H2, 1, 0xAA), log(H1, 1, 0xAA)];
    let rows = match_logs_by_topic0_address(&logs, &catalog);
    assert_eq!(
        rows,
        vec![
            MatchedRow { record: 0, resolution: Resolution::Unmatched },
            MatchedRow { record: 1, resolution: Resolution::AddressMatched(1) },
            MatchedRow { record: 2, resolution: Resolution::Unmatched },
            MatchedRow { record: 3, resolution: Resolution::AddressMatched(0) },
        ]
    );
}

#[test]
fn address_match_of_its_own_output_changes_nothing() {
    let catalog = transfer_and_approve();
    let logs = vec![log(H1, 1, 0xCC), log(H1, 1, 0xBB), log(H2, 1, 0xAA), log(H1, 1, 0xAA)];
    let rows = match_logs_by_topic0_address(&logs, &catalog);
    let again: Vec<LogRecord> = rows.iter().map(|row| logs[row.record].clone()).collect();
    assert_eq!(match_logs_by_topic0_address(&again, &catalog), rows);

    let functions = vec![
        function(S1, 0xEE, "transfer(address,uint256)"),
        function(S1, 0xDD, "transfer(address,uint256)"),
    ];
    let traces = vec![trace(S1, 0xDD), trace(0x77, 0xEE), trace(S1, 0xEE)];
    let rows = match_traces_by_4bytes_address(&traces, &functions);
    let again: Vec<TraceRecord> = rows.iter().map(|row| traces[row.record].clone()).collect();
    assert_eq!(match_traces_by_4bytes_address(&again, &functions), rows);
}

#[test]
fn matched_rows_come_before_fallback_rows() {
    let catalog = transfer_and_approve();
    let logs = vec![log(H1, 1, 0xCC), log(H1, 1, 0xBB), log(H2, 1, 0xAA), log(H1, 1, 0xAA)];
    let rows = match_logs_by_topic0(&logs, &catalog);
    assert_eq!(
        rows,
        vec![
            MatchedRow { record: 1, resolution: Resolution::AddressMatched(1) },
            MatchedRow { record: 3, resolution: Resolution::AddressMatched(0) },
            MatchedRow { record: 0, resolution: Resolution::HashFallbackMatched(0) },
            MatchedRow { record: 2, resolution: Resolution::Unmatched },
        ]
    );
}

#[test]
fn duplicate_keys_multiply_rows() {
    let catalog = vec![
        event(H1, 0xAA, 2, "Transfer(address,uint256)"),
        event(H2, 0xAA, 2, "Other(uint256)"),
        event(H1, 0xAA, 2, "transfer(address,uint256)"),
    ];
    let logs = vec![log(H1, 1, 0xAA), log(H1, 1, 0xBB)];
    let rows = match_logs_by_topic0_address(&logs, &catalog);
    assert_eq!(
        rows,
        vec![
            MatchedRow { record: 0, resolution: Resolution::AddressMatched(0) },
            MatchedRow { record: 0, resolution: Resolution::AddressMatched(2) },
            MatchedRow { record: 1, resolution: Resolution::Unmatched },
        ]
    );
    let rows = match_logs_by_topic0(&logs, &catalog);
    assert_eq!(
        rows,
        vec![
            MatchedRow { record: 0, resolution: Resolution::AddressMatched(0) },
            MatchedRow { record: 0, resolution: Resolution::AddressMatched(2) },
            MatchedRow { record: 1, resolution: Resolution::HashFallbackMatched(0) },
        ]
    );
}

#[test]
fn log_match_needs_the_same_arity() {
    let catalog = vec![event(H1, 0xAA, 3, "Transfer(address,address,uint256)")];
    let logs = vec![log(H1, 1, 0xAA), log(H1, 2, 0xAA)];
    assert_eq!(
        match_logs_by_topic0(&logs, &catalog),
        vec![
            MatchedRow { record: 1, resolution: Resolution::AddressMatched(0) },
            MatchedRow { record: 0, resolution: Resolution::Unmatched },
        ]
    );
}

#[test]
fn trace_match_ignores_arity_and_anonymous() {
    let mut first = function(S1, 0xEE, "transfer(address,uint256)");
    first.num_indexed_args = 3;
    first.anonymous = true;
    let second = function(S1, 0xDD, "transfer(address,uint256)");
    let third = function(S1, 0xCC, "other(uint256)");
    let fourth = function(S1, 0xBB, "other(uint256)");
    let catalog = vec![third, first, fourth, second];
    let traces = vec![trace(S1, 0xEE), trace(S1, 0x01)];
    assert_eq!(
        match_traces_by_4bytes_address(&traces, &catalog),
        vec![
            MatchedRow { record: 0, resolution: Resolution::AddressMatched(1) },
            MatchedRow { record: 1, resolution: Resolution::Unmatched },
        ]
    );
    // both signatures are declared twice, whatever their arity: the first one wins
    assert_eq!(
        match_traces_by_4bytes(&traces, &catalog),
        vec![
            MatchedRow { record: 0, resolution: Resolution::AddressMatched(1) },
            MatchedRow { record: 1, resolution: Resolution::HashFallbackMatched(0) },
        ]
    );
}

#[test]
fn trace_majority_wins_the_fallback() {
    let catalog = vec![
        function(S1, 0x01, "other(uint256)"),
        function(S1, 0x02, "transfer(address,uint256)"),
        function(0x52, 0x03, "other(uint256)"),
        function(S1, 0x04, "transfer(address,uint256)"),
    ];
    let rows = match_traces_by_4bytes(&vec![trace(S1, 0xDD)], &catalog);
    assert_eq!(
        rows,
        vec![MatchedRow { record: 0, resolution: Resolution::HashFallbackMatched(1) }]
    );
}

#[test]
fn signatures_differing_in_name_or_flag_are_counted_apart() {
    let mut flagged = event(H1, 0x02, 2, "A");
    flagged.anonymous = true;
    let mut renamed = event(H1, 0x03, 2, "A");
    renamed.name = "a".to_string();
    let catalog = vec![
        event(H1, 0x01, 2, "A"),
        flagged,
        renamed,
        event(H1, 0x04, 2, "B"),
        event(H1, 0x05, 2, "B"),
    ];
    let rows = match_logs_by_topic0(&vec![log(H1, 1, 0xCC)], &catalog);
    assert_eq!(rows[0].resolution, Resolution::HashFallbackMatched(3));
}

#[test]
fn empty_inputs_give_empty_or_unmatched_rows() {
    let none: Vec<AbiEntry> = Vec::new();
    assert_eq!(match_logs_by_topic0(&Vec::new(), &transfer_and_approve()), vec![]);
    assert_eq!(match_traces_by_4bytes(&Vec::new(), &none), vec![]);
    assert_eq!(
        match_logs_by_topic0(&vec![log(H1, 1, 0xAA)], &none),
        vec![MatchedRow { record: 0, resolution: Resolution::Unmatched }]
    );
    assert_eq!(
        match_traces_by_4bytes_address(&vec![trace(S1, 0xAA)], &none),
        vec![MatchedRow { record: 0, resolution: Resolution::Unmatched }]
    );
}

#[test]
fn hashes_of_different_length_do_not_match() {
    let catalog = vec![function(S1, 0xEE, "transfer(address,uint256)")];
    let traces = vec![TraceRecord { selector: vec![S1; 3], action_to: addr(0xEE) }];
    assert_eq!(
        match_traces_by_4bytes(&traces, &catalog),
        vec![MatchedRow { record: 0, resolution: Resolution::Unmatched }]
    );
}

#[test]
fn catalog_is_reduced_to_one_row_per_hash_and_arity() {
    let catalog = vec![
        event(H1, 0x04, 2, "B"),
        event(H1, 0x01, 2, "A"),
        event(H1, 0x02, 2, "A"),
        event(H1, 0x03, 2, "A"),
        event(H1, 0x05, 3, "C"),
        event(H2, 0x06, 2, "D"),
        event(H2, 0x07, 2, "E"),
        event(H2, 0x08, 2, "E"),
    ];
    assert_eq!(reduce_catalog(true, &catalog), vec![1, 4, 6]);
    assert_eq!(reduce_catalog(false, &catalog), vec![1, 6]);
    assert_eq!(reduce_catalog(true, &Vec::new()), Vec::<usize>::new());
}

#[test]
fn reduced_catalog_keeps_the_first_of_tied_signatures() {
    let catalog = transfer_and_approve();
    assert_eq!(reduce_catalog(true, &catalog), vec![0]);
    let catalog = vec![
        event(H1, 0x01, 2, "B"),
        event(H1, 0x02, 2, "A"),
        event(H1, 0x03, 2, "B"),
        event(H1, 0x04, 2, "A"),
    ];
    assert_eq!(reduce_catalog(true, &catalog), vec![0]);
}

#[test]
fn fallback_for_one_key_follows_the_majority() {
    let catalog = vec![
        event(H1, 0x04, 2, "B"),
        event(H1, 0x01, 2, "A"),
        event(H1, 0x02, 2, "A"),
        event(H1, 0x05, 3, "C"),
    ];
    let two = log(H1, 1, 0xCC);
    let three = log(H1, 2, 0x04);
    let four = log(H1, 3, 0x04);
    let other = log(H2, 1, 0x04);
    assert_eq!(match_by_frequency(&Lookup::of_log(&two), &catalog), Some(1));
    assert_eq!(match_by_frequency(&Lookup::of_log(&three), &catalog), Some(3));
    assert_eq!(match_by_frequency(&Lookup::of_log(&four), &catalog), None);
    assert_eq!(match_by_frequency(&Lookup::of_log(&other), &catalog), None);

    let call = TraceRecord { selector: hash32(H1), action_to: addr(0x09) };
    assert_eq!(match_by_frequency(&Lookup::of_trace(&call), &catalog), Some(1));
}

#[test]
fn lookup_carries_the_key_of_its_record() {
    let record = log(H1, 2, 0xAA);
    let lookup = Lookup::of_log(&record);
    assert_eq!(lookup.hash, &hash32(H1));
    assert_eq!(lookup.address, &addr(0xAA));
    assert_eq!(lookup.arity, Some(3));
    assert!(lookup.matches_address(&event(H1, 0xAA, 3, "A")));
    assert!(!lookup.matches_address(&event(H1, 0xAB, 3, "A")));
    assert!(!lookup.matches_address(&event(H1, 0xAA, 2, "A")));
    assert!(lookup.matches_hash(&event(H1, 0xAB, 3, "A")));
    assert!(!lookup.matches_hash(&event(H2, 0xAA, 3, "A")));

    let call = trace(S1, 0xEE);
    let lookup = Lookup::of_trace(&call);
    assert_eq!(lookup.arity, None);
    let mut entry = function(S1, 0xEE, "transfer(address,uint256)");
    entry.num_indexed_args = 7;
    assert!(lookup.matches_address(&entry));
}

#[test]
fn byte_strings_are_compared_by_content() {
    assert!(bytes_equal(&vec![], &vec![]));
    assert!(bytes_equal(&vec![1, 2, 3], &vec![1, 2, 3]));
    assert!(!bytes_equal(&vec![1, 2, 3], &vec![1, 2, 4]));
    assert!(!bytes_equal(&vec![1, 2, 3], &vec![1, 2]));
    assert!(!bytes_equal(&vec![], &vec![0]));
}

#[test]
fn rows_point_into_records_and_catalog() {
    let catalog = transfer_and_approve();
    let logs = vec![log(H1, 1, 0xCC), log(H1, 1, 0xBB), log(H2, 1, 0xAA), log(H1, 1, 0xAA)];
    for row in match_logs_by_topic0(&logs, &catalog) {
        assert!(row.record < logs.len());
        if let Some(position) = row.resolution.entry() {
            assert!(position < catalog.len());
            assert_eq!(catalog[position].hash, logs[row.record].topic0);
        }
    }
}

#[test]
fn signatures_are_counted_over_their_addresses() {
    let catalog = vec![
        event(H1, 0x04, 2, "B"),
        event(H1, 0x01, 2, "A"),
        event(H1, 0x02, 2, "A"),
        event(H1, 0x03, 3, "A"),
        event(H2, 0x03, 2, "A"),
    ];
    assert_eq!(signature_counts(true, &catalog), vec![1, 2, 2, 1, 1]);
    assert_eq!(signature_counts(false, &catalog), vec![1, 3, 3, 3, 1]);
}
