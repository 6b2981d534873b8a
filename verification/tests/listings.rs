use servicectl::command::OperatingMode;
use servicectl::commands::list::{raw_line_of, table_rows_of, List};
use servicectl::numeral::{decimal_text, read_decimal};
use servicectl::command::CommandInvocation;
use servicectl::query::{queries_of, read_answer, Outcome};
use servicectl::report::{memory_usage, service_names};
use servicectl::listing::{Answer, Listing, ListingError, Request, ServiceRecord, ServiceState};
use servicectl::systemd::Systemd;

fn state(is_active: bool, is_enabled: bool, memory: u64) -> ServiceState {
    ServiceState { is_active, is_enabled, memory }
}

fn record(name: &str, is_active: bool, is_enabled: bool, memory: u64) -> ServiceRecord {
    ServiceRecord { name: name.to_string(), is_active, is_enabled, memory }
}

fn names(items: &[&str]) -> Vec<String> {
    items.iter().map(|s| s.to_string()).collect()
}

fn list_all(mode: OperatingMode, found: &[&str], states: &[ServiceState]) -> Result<Vec<ServiceRecord>, ListingError> {
    let mut listing = Listing::begin(mode);
    let mut next = 0;
    loop {
        match listing.request() {
            Request::Services { mode: asked } => {
                assert_eq!(asked, mode);
                listing = listing.answer(Answer::Services(names(found)));
            }
            Request::State { mode: asked, name } => {
                assert_eq!(asked, mode);
                assert_eq!(name, found[next]);
                listing = listing.answer(Answer::State(states[next]));
                next += 1;
            }
            Request::Nothing => break,
        }
    }
    listing.finish()
}

#[test]
fn listing_asks_for_names_then_for_each_state() {
    let adapter = Systemd::new(true, Some(String::from("/home/ada"))).unwrap();
    let listing = adapter.get_services();
    assert_eq!(listing.request(), Request::Services { mode: OperatingMode::User });
    let listing = listing.answer(Answer::Services(names(&["a.service", "b.service"])));
    assert_eq!(
        listing.request(),
        Request::State { mode: OperatingMode::User, name: String::from("a.service") }
    );
    let listing = listing.answer(Answer::State(state(true, false, 10)));
    assert_eq!(
        listing.request(),
        Request::State { mode: OperatingMode::User, name: String::from("b.service") }
    );
    let listing = listing.answer(Answer::State(state(false, true, 20)));
    assert_eq!(listing.request(), Request::Nothing);
    assert_eq!(
        listing.finish(),
        Ok(vec![record("a.service", true, false, 10), record("b.service", false, true, 20)])
    );
}

#[test]
fn listing_keeps_the_reported_order() {
    let found = ["z", "a", "m", "a"];
    let states = [state(true, true, 4), state(false, false, 3), state(true, false, 2), state(false, true, 1)];
    assert_eq!(
        list_all(OperatingMode::System, &found, &states),
        Ok(vec![
            record("z", true, true, 4),
            record("a", false, false, 3),
            record("m", true, false, 2),
            record("a", false, true, 1),
        ])
    );
}

#[test]
fn listing_of_no_service_ends_at_once() {
    let listing = Listing::begin(OperatingMode::System).answer(Answer::Services(Vec::new()));
    assert_eq!(listing.request(), Request::Nothing);
    assert_eq!(listing.finish(), Ok(Vec::new()));
}

#[test]
fn listing_twice_with_the_same_answers_gives_equal_records() {
    let found = ["a", "b"];
    let states = [state(true, true, 1), state(false, false, u64::MAX)];
    let first = list_all(OperatingMode::System, &found, &states);
    let second = list_all(OperatingMode::System, &found, &states);
    let third = list_all(OperatingMode::User, &found, &states);
    assert!(first.is_ok());
    assert_eq!(first, second);
    assert_eq!(first, third);
}

#[test]
fn listing_fails_as_a_whole() {
    let listing = Listing::begin(OperatingMode::System).answer(Answer::Failure);
    assert_eq!(listing.request(), Request::Nothing);
    assert_eq!(listing.finish(), Err(ListingError::QueryFailed));

    let listing = Listing::begin(OperatingMode::System)
        .answer(Answer::Services(names(&["a", "b"])))
        .answer(Answer::State(state(true, true, 1)))
        .answer(Answer::Failure);
    assert_eq!(listing.request(), Request::Nothing);
    let listing = listing.answer(Answer::State(state(true, true, 2)));
    assert_eq!(listing.finish(), Err(ListingError::QueryFailed));
}

#[test]
fn listing_fails_on_an_answer_that_was_not_asked_for() {
    let listing = Listing::begin(OperatingMode::System).answer(Answer::State(state(true, true, 1)));
    assert_eq!(listing.finish(), Err(ListingError::QueryFailed));
    let listing = Listing::begin(OperatingMode::System)
        .answer(Answer::Services(names(&["a"])))
        .answer(Answer::Services(names(&["a"])));
    assert_eq!(listing.finish(), Err(ListingError::QueryFailed));
}

#[test]
fn listing_that_waits_has_no_records() {
    assert_eq!(Listing::begin(OperatingMode::User).finish(), Err(ListingError::Unfinished));
    let listing = Listing::begin(OperatingMode::User)
        .answer(Answer::Services(names(&["a", "b"])))
        .answer(Answer::State(state(true, true, 1)));
    assert_eq!(listing.finish(), Err(ListingError::Unfinished));
}

#[test]
fn finished_listing_ignores_further_answers() {
    let listing = Listing::begin(OperatingMode::System)
        .answer(Answer::Services(names(&["a"])))
        .answer(Answer::State(state(true, false, 7)))
        .answer(Answer::State(state(false, true, 8)))
        .answer(Answer::Failure);
    assert_eq!(listing.finish(), Ok(vec![record("a", true, false, 7)]));
}

#[test]
fn decimal_numerals() {
    assert_eq!(decimal_text(0), "0");
    assert_eq!(decimal_text(7), "7");
    assert_eq!(decimal_text(10), "10");
    assert_eq!(decimal_text(1024), "1024");
    assert_eq!(decimal_text(1_000_000), "1000000");
    assert_eq!(decimal_text(u64::MAX), "18446744073709551615");
}

#[test]
fn raw_line_has_the_four_fields() {
    assert_eq!(raw_line_of(&record("demo.service", true, false, 1024)), "demo.service true false 1024");
    assert_eq!(raw_line_of(&record("", false, true, 0)), " false true 0");
}

#[test]
fn raw_list_has_one_line_for_each_service() {
    let services = vec![record("a", true, true, 1), record("b", false, false, 22)];
    assert_eq!(
        List::new(true).execute(&services),
        vec![String::from("a true true 1"), String::from("b false false 22")]
    );
    assert_eq!(List::new(true).execute(&Vec::new()), Vec::<String>::new());
}

#[test]
fn table_rows_start_with_the_header() {
    let services = vec![record("a", true, false, 1)];
    assert_eq!(
        table_rows_of(&services),
        vec![
            vec![
                String::from("name"),
                String::from("is_active"),
                String::from("is_enabled"),
                String::from("memory"),
            ],
            vec![String::from("a"), String::from("true"), String::from("false"), String::from("1")],
        ]
    );
}

#[test]
fn table_is_drawn_under_a_header() {
    let services = vec![record("demo", true, false, 1024), record("longer.service", false, true, 0)];
    let expected = "\
+----------------+-----------+------------+--------+
| name           | is_active | is_enabled | memory |
+----------------+-----------+------------+--------+
| demo           | true      | false      | 1024   |
+----------------+-----------+------------+--------+
| longer.service | false     | true       | 0      |
+----------------+-----------+------------+--------+";
    assert_eq!(List::new(false).execute(&services), vec![String::from(expected)]);
}

#[test]
fn table_of_no_service_is_the_header_alone() {
    let expected = "\
+------+-----------+------------+--------+
| name | is_active | is_enabled | memory |
+------+-----------+------------+--------+";
    assert_eq!(List::new(false).execute(&Vec::new()), vec![String::from(expected)]);
}

#[test]
fn list_remembers_its_format() {
    assert!(List::new(true).raw());
    assert!(!List::new(false).raw());
}

fn chars(text: &str) -> Vec<char> {
    text.chars().collect()
}

#[test]
fn decimal_numerals_are_read_back() {
    for n in [0u64, 1, 9, 10, 99, 100, 12345, u64::MAX - 1, u64::MAX] {
        assert_eq!(read_decimal(&chars(&decimal_text(n))), Some(n));
    }
}

#[test]
fn read_decimal_takes_digits_only() {
    assert_eq!(read_decimal(&chars("")), None);
    assert_eq!(read_decimal(&chars("0")), Some(0));
    assert_eq!(read_decimal(&chars("007")), Some(7));
    assert_eq!(read_decimal(&chars("12a")), None);
    assert_eq!(read_decimal(&chars("a12")), None);
    assert_eq!(read_decimal(&chars("-1")), None);
    assert_eq!(read_decimal(&chars("+1")), None);
    assert_eq!(read_decimal(&chars("1 ")), None);
    assert_eq!(read_decimal(&chars("\u{661}")), None);
}

#[test]
fn read_decimal_stops_at_the_greatest_number() {
    assert_eq!(read_decimal(&chars("18446744073709551615")), Some(u64::MAX));
    assert_eq!(read_decimal(&chars("18446744073709551616")), None);
    assert_eq!(read_decimal(&chars("18446744073709551625")), None);
    assert_eq!(read_decimal(&chars("28446744073709551615")), None);
    assert_eq!(read_decimal(&chars("184467440737095516150")), None);
    assert_eq!(read_decimal(&chars("00018446744073709551615")), Some(u64::MAX));
    assert_eq!(read_decimal(&chars("99999999999999999999999999")), None);
}

#[test]
fn service_names_are_the_first_words_of_the_lines() {
    let report = "a.service enabled enabled\nb.service  disabled -\n\n  \t c.service\tstatic\r\n \nd.service";
    assert_eq!(
        service_names(report),
        vec![
            String::from("a.service"),
            String::from("b.service"),
            String::from("c.service"),
            String::from("d.service"),
        ]
    );
    assert_eq!(service_names(""), Vec::<String>::new());
    assert_eq!(service_names(" \n\t\n\r\n"), Vec::<String>::new());
    assert_eq!(service_names("x"), vec![String::from("x")]);
    assert_eq!(service_names("x\ny\n"), vec![String::from("x"), String::from("y")]);
}

#[test]
fn memory_usage_reads_the_first_word() {
    assert_eq!(memory_usage("1024\n"), 1024);
    assert_eq!(memory_usage("  52428800 bytes"), 52428800);
    assert_eq!(memory_usage("0"), 0);
    assert_eq!(memory_usage("18446744073709551615\n"), u64::MAX);
    assert_eq!(memory_usage("12\n13"), 12);
    assert_eq!(memory_usage("\n 12"), 12);
}

#[test]
fn memory_usage_is_nothing_where_no_number_is_spelled() {
    assert_eq!(memory_usage(""), 0);
    assert_eq!(memory_usage("\n"), 0);
    assert_eq!(memory_usage("[not set]\n"), 0);
    assert_eq!(memory_usage("12k"), 0);
    assert_eq!(memory_usage("18446744073709551616"), 0);
}

#[test]
fn reports_in_another_order_give_the_same_records_in_that_order() {
    let first = list_all(
        OperatingMode::System,
        &["a", "b", "c", "a"],
        &[state(true, true, 1), state(false, true, 2), state(true, false, 3), state(false, false, 4)],
    )
    .unwrap();
    let second = list_all(
        OperatingMode::System,
        &["c", "a", "a", "b"],
        &[state(true, false, 3), state(false, false, 4), state(true, true, 1), state(false, true, 2)],
    )
    .unwrap();
    assert_ne!(first, second);
    let key = |r: &ServiceRecord| (r.name.clone(), r.is_active, r.is_enabled, r.memory);
    let mut first_keys: Vec<_> = first.iter().map(key).collect();
    let mut second_keys: Vec<_> = second.iter().map(key).collect();
    first_keys.sort();
    second_keys.sort();
    assert_eq!(first_keys, second_keys);
}

fn invocation(args: &[&str]) -> CommandInvocation {
    CommandInvocation { program: String::from("systemctl"), args: names(args) }
}

fn outcome(success: bool, output: &str) -> Option<Outcome> {
    Some(Outcome { success, output: output.to_string() })
}

#[test]
fn names_are_asked_for_with_one_invocation() {
    assert_eq!(
        queries_of(&Request::Services { mode: OperatingMode::System }),
        vec![invocation(&["list-unit-files", "--type=service", "--no-legend", "--plain"])]
    );
    assert_eq!(
        queries_of(&Request::Services { mode: OperatingMode::User }),
        vec![invocation(&["--user", "list-unit-files", "--type=service", "--no-legend", "--plain"])]
    );
}

#[test]
fn state_is_asked_for_with_three_invocations() {
    assert_eq!(
        queries_of(&Request::State { mode: OperatingMode::System, name: String::from("a.service") }),
        vec![
            invocation(&["is-active", "--quiet", "a.service"]),
            invocation(&["is-enabled", "--quiet", "a.service"]),
            invocation(&["show", "-p", "MemoryCurrent", "--value", "a.service"]),
        ]
    );
    assert_eq!(
        queries_of(&Request::State { mode: OperatingMode::User, name: String::from("b") }),
        vec![
            invocation(&["--user", "is-active", "--quiet", "b"]),
            invocation(&["--user", "is-enabled", "--quiet", "b"]),
            invocation(&["--user", "show", "-p", "MemoryCurrent", "--value", "b"]),
        ]
    );
}

#[test]
fn nothing_is_asked_for_with_no_invocation() {
    assert_eq!(queries_of(&Request::Nothing), Vec::<CommandInvocation>::new());
}

#[test]
fn names_are_read_from_a_run_that_succeeded() {
    let request = Request::Services { mode: OperatingMode::System };
    assert_eq!(
        read_answer(&request, &vec![outcome(true, "a.service enabled\nb.service static\n")]),
        Answer::Services(names(&["a.service", "b.service"]))
    );
    assert_eq!(read_answer(&request, &vec![outcome(true, "")]), Answer::Services(Vec::new()));
    assert_eq!(read_answer(&request, &vec![outcome(false, "a.service enabled\n")]), Answer::Failure);
    assert_eq!(read_answer(&request, &vec![None]), Answer::Failure);
    assert_eq!(read_answer(&request, &Vec::new()), Answer::Failure);
    assert_eq!(
        read_answer(&request, &vec![outcome(true, "a\n"), outcome(true, "b\n")]),
        Answer::Failure
    );
}

#[test]
fn state_is_read_from_three_runs() {
    let request = Request::State { mode: OperatingMode::User, name: String::from("a.service") };
    assert_eq!(
        read_answer(&request, &vec![outcome(true, ""), outcome(false, ""), outcome(true, "4096\n")]),
        Answer::State(state(true, false, 4096))
    );
    assert_eq!(
        read_answer(
            &request,
            &vec![outcome(false, "inactive\n"), outcome(true, "enabled\n"), outcome(false, "[not set]\n")]
        ),
        Answer::State(state(false, true, 0))
    );
    assert_eq!(
        read_answer(&request, &vec![outcome(true, ""), None, outcome(true, "1\n")]),
        Answer::Failure
    );
    assert_eq!(
        read_answer(&request, &vec![outcome(true, ""), outcome(true, "")]),
        Answer::Failure
    );
    assert_eq!(read_answer(&request, &Vec::new()), Answer::Failure);
}

#[test]
fn nothing_asked_has_no_answer() {
    assert_eq!(read_answer(&Request::Nothing, &Vec::new()), Answer::Failure);
    assert_eq!(read_answer(&Request::Nothing, &vec![outcome(true, "a\n")]), Answer::Failure);
}

#[test]
fn listing_runs_on_queries_and_outcomes() {
    let mut listing = Listing::begin(OperatingMode::User);
    let mut asked: Vec<CommandInvocation> = Vec::new();
    loop {
        let request = listing.request();
        if request == Request::Nothing {
            break;
        }
        let queries = queries_of(&request);
        let outcomes: Vec<Option<Outcome>> = queries
            .iter()
            .map(|query| match query.args[1].as_str() {
                "list-unit-files" => outcome(true, "a.service enabled\nb.service disabled\n"),
                "is-active" => outcome(query.args[3] == "a.service", ""),
                "is-enabled" => outcome(query.args[3] == "a.service", ""),
                _ => outcome(true, if query.args[5] == "a.service" { "12\n" } else { "[not set]\n" }),
            })
            .collect();
        asked.extend(queries);
        listing = listing.answer(read_answer(&request, &outcomes));
    }
    assert_eq!(asked.len(), 7);
    assert_eq!(
        listing.finish(),
        Ok(vec![record("a.service", true, true, 12), record("b.service", false, false, 0)])
    );
}
