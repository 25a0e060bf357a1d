use framework::error::Error;
use framework::vms::{id_text, TableRow, Vm, Vms};

#[test]
fn test_vms_parse_str() {
    let input = r#" Id   Name           State
-------------------------------
 1    infra          running
 -    trangar-dev    shut off
 -    translucence   shut off
"#;
    let vms = Vms::parse_str(input).expect("Could not parse input");
    assert_eq!(vms.vms.len(), 3);
    assert_eq!(vms.vms[0].name, "infra");
    assert_eq!(vms.vms[0].state, "running");
    assert_eq!(vms.vms[1].name, "trangar-dev");
    assert_eq!(vms.vms[1].state, "shut off");
    assert_eq!(vms.vms[2].name, "translucence");
    assert_eq!(vms.vms[2].state, "shut off");

    assert!(vms.vms[0].id() != vms.vms[1].id());
    assert!(vms.vms[0].id() != vms.vms[2].id());
}

#[test]
fn listing_without_machines() {
    assert_eq!(Vms::parse_str("").expect("empty").vms.len(), 0);
    assert_eq!(Vms::parse_str(" Id   Name   State\n").expect("one line").vms.len(), 0);
    assert_eq!(Vms::parse_str(" Id   Name   State\n------\n").expect("heading").vms.len(), 0);
    assert_eq!(Vms::parse_str("anything\nat all\n\n   \n").expect("blank lines").vms.len(), 0);
}

#[test]
fn heading_is_not_read() {
    let vms = Vms::parse_str("one\ntwo\n 1    infra          running\n").expect("listing");
    assert_eq!(vms.vms.len(), 1);
    assert_eq!(vms.vms[0].idx, 0);
}

#[test]
fn blank_lines_count_for_the_index() {
    let input = "h\nh\n 1    a    running\n\n   \n 2    b    paused\n";
    let vms = Vms::parse_str(input).expect("listing");
    assert_eq!(vms.vms.len(), 2);
    assert_eq!(vms.vms[0].idx, 0);
    assert_eq!(vms.vms[0].name, "a");
    assert_eq!(vms.vms[1].idx, 3);
    assert_eq!(vms.vms[1].name, "b");
    assert_eq!(vms.vms[1].state, "paused");
}

#[test]
fn line_with_too_few_columns() {
    let input = "h\nh\n 1    infra          running\n 2 broken line\n 3    c    d\n";
    match Vms::parse_str(input) {
        Err(Error::String(message)) => {
            assert_eq!(message, "Could not parse line \" 2 broken line\"");
        }
        other => panic!("unexpected {:?}", other.map(|vms| vms.vms.len())),
    }
}

#[test]
fn line_with_too_many_columns() {
    let input = "h\nh\n 1    infra    running    extra\n";
    match Vms::parse_str(input) {
        Err(Error::String(message)) => {
            assert_eq!(message, "Could not parse line \" 1    infra    running    extra\"");
        }
        other => panic!("unexpected {:?}", other.map(|vms| vms.vms.len())),
    }
}

#[test]
fn message_quotes_the_line() {
    let input = "h\nh\nsay \"hi\"\tnow\n";
    match Vms::parse_str(input) {
        Err(Error::String(message)) => {
            assert_eq!(message, "Could not parse line \"say \\\"hi\\\"\\tnow\"");
        }
        other => panic!("unexpected {:?}", other.map(|vms| vms.vms.len())),
    }
}

#[test]
fn columns_of_a_line() {
    let vm = Vm::from_line(4, "  7    web-1  \t  shut off  ").expect("three columns");
    assert_eq!(vm.idx, 4);
    assert_eq!(vm.name, "web-1");
    assert_eq!(vm.state, "shut off");
    assert!(Vm::from_line(0, "7 web-1 running").is_none());
    assert!(Vm::from_line(0, "").is_none());
}

#[test]
fn machine_from_three_parts() {
    let parts = vec!["1".to_string(), " infra ".to_string(), "running\t".to_string()];
    let vm = Vm::from_parts(9, &parts).expect("three parts");
    assert_eq!(vm.idx, 9);
    assert_eq!(vm.name, "infra");
    assert_eq!(vm.state, "running");
    assert!(Vm::from_parts(0, &vec!["a".to_string(), "b".to_string()]).is_none());
    assert!(Vm::from_parts(0, &Vec::new()).is_none());
    let four = vec!["a".to_string(), "b".to_string(), "c".to_string(), "d".to_string()];
    assert!(Vm::from_parts(0, &four).is_none());
}

#[test]
fn row_id_is_a_decimal_number() {
    let vm = Vm { idx: 1, name: "infra".to_string(), state: "running".to_string() };
    let id = vm.id();
    assert!(!id.is_empty());
    assert!(id.chars().all(|c| c.is_ascii_digit()));
    assert!(id.parse::<u64>().is_ok());
    assert_eq!(id, vm.clone().id());
}

#[test]
fn row_id_tells_rows_apart() {
    let a = Vm { idx: 0, name: "a".to_string(), state: "running".to_string() };
    let b = Vm { idx: 1, name: "a".to_string(), state: "running".to_string() };
    let c = Vm { idx: 0, name: "a".to_string(), state: "paused".to_string() };
    assert!(a.id() != b.id());
    assert!(a.id() != c.id());
}

#[test]
fn load_replaces_the_machines() {
    let mut vms = Vms { vms: Vec::new() };
    vms.load("h\nh\n 1    infra          running\n").expect("listing");
    assert_eq!(vms.vms.len(), 1);
    vms.load("h\nh\n 1    a    b\n 2    c    d\n").expect("listing");
    assert_eq!(vms.vms.len(), 2);
    assert_eq!(vms.vms[1].name, "c");
}

#[test]
fn load_keeps_the_machines_on_failure() {
    let mut vms = Vms { vms: Vec::new() };
    vms.load("h\nh\n 1    infra          running\n").expect("listing");
    assert!(vms.load("h\nh\nbroken\n").is_err());
    assert_eq!(vms.vms.len(), 1);
    assert_eq!(vms.vms[0].name, "infra");
}

#[test]
fn row_number_in_decimal() {
    assert_eq!(id_text(0), "0");
    assert_eq!(id_text(1234567890), "1234567890");
    assert_eq!(id_text(u64::MAX), "18446744073709551615");
}
