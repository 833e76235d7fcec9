use server::client::context::{copy_binaries, Context, Mode};
use server::client::{Client, EthernetClient, Manager, SerialClient};
use server::error::{Error, ErrorKind};
use server::parser::word::Address;
use server::parser::BinaryFile;

fn lines(text: &[&str]) -> Vec<String> {
    text.iter().map(|line| String::from(*line)).collect()
}

fn error(kind: ErrorKind, line: usize, detail: &str) -> Error {
    Error { kind, line, detail: String::from(detail) }
}

fn table() -> Vec<BinaryFile> {
    vec![
        BinaryFile { path: String::from("a.bin"), name: Some(String::from("alpha")) },
        BinaryFile { path: String::from("b.bin"), name: Some(String::from("beta")) },
    ]
}

fn configure(text: &[&str]) -> Result<(Context, Mode), Error> {
    Context::new(&table(), String::from("device"), &lines(text), 4)
}

#[test]
fn a_binary_by_index_gets_the_suffix_of_the_channel() {
    let (context, mode) = configure(&["?serial /dev/ttyUSB0", "?channel stable", "?use 1"]).unwrap();
    assert_eq!(context.binary, Some(String::from("b.bin.stable")));
    assert_eq!(context.name, "device");
    assert_eq!(context.index, 4);
    assert!(!context.locked);
    assert_eq!(mode, Mode::Serial(String::from("/dev/ttyUSB0")));
}

#[test]
fn a_binary_by_name_gets_the_suffix_of_the_channel() {
    let (context, _) = configure(&["?use alpha", "?channel nightly", "?serial s"]).unwrap();
    assert_eq!(context.binary, Some(String::from("a.bin.nightly")));
    let (context, _) = configure(&["?use beta", "?channel beta", "?serial s"]).unwrap();
    assert_eq!(context.binary, Some(String::from("b.bin.beta")));
    let (context, _) = configure(&["?use beta", "?channel none", "?serial s"]).unwrap();
    assert_eq!(context.binary, Some(String::from("b.bin")));
}

#[test]
fn the_channel_is_stable_unless_it_is_set() {
    let (context, _) = configure(&["?serial s", "?use 0"]).unwrap();
    assert_eq!(context.binary, Some(String::from("a.bin.stable")));
}

#[test]
fn a_client_may_have_no_binary() {
    let (context, mode) = configure(&["?ethernet 10.0.0.2", "?channel beta"]).unwrap();
    assert_eq!(context.binary, None);
    assert_eq!(mode, Mode::Ethernet(Address(10, 0, 0, 2)));
}

#[test]
fn a_client_is_reached_in_one_way() {
    assert_eq!(configure(&["?use 0"]), Err(error(ErrorKind::NoClientMode, 1, "")));
    assert_eq!(configure(&[]), Err(error(ErrorKind::NoClientMode, 0, "")));
    assert_eq!(
        configure(&["?serial s", "?ethernet 10.0.0.2"]),
        Err(error(ErrorKind::SecondClientMode, 2, ""))
    );
    assert_eq!(
        configure(&["?ethernet 10.0.0.2", "", "?serial s"]),
        Err(error(ErrorKind::SecondClientMode, 3, ""))
    );
    assert_eq!(configure(&["?serial s", "?serial t"]), Err(error(ErrorKind::RepeatedCall, 2, "serial")));
}

#[test]
fn the_operands_of_a_client_are_checked() {
    assert_eq!(configure(&["?use 2"]), Err(error(ErrorKind::BinaryNotFound, 1, "2")));
    assert_eq!(configure(&["?use gamma"]), Err(error(ErrorKind::BinaryNotFound, 1, "gamma")));
    assert_eq!(configure(&["?channel weekly"]), Err(error(ErrorKind::InvalidChannel, 1, "weekly")));
    assert_eq!(configure(&["?ethernet 10.0.0"]), Err(error(ErrorKind::InvalidAddress, 1, "10.0.0")));
    assert_eq!(
        configure(&["?serial"]),
        Err(error(ErrorKind::MissingOperand, 1, "no serial source specified"))
    );
    assert_eq!(configure(&[":serial s"]), Err(error(ErrorKind::SingleCall, 1, "serial")));
    assert_eq!(configure(&["?binary s"]), Err(error(ErrorKind::InvalidKeyword, 1, "binary")));
}

#[test]
fn a_copy_of_binaries_holds_the_same_binaries() {
    assert_eq!(copy_binaries(&table()), table());
}

#[test]
fn binaries_are_registered_in_order() {
    let mut manager = Manager::new();
    assert_eq!(manager.binary(String::from("a.bin"), Some(String::from("alpha"))), Ok(()));
    assert_eq!(manager.binary(String::from("b.bin"), None), Ok(()));
    assert_eq!(manager.binary(String::from("c.bin"), None), Ok(()));
    assert_eq!(manager.binary(String::from("d.bin"), Some(String::from("delta"))), Ok(()));
    let paths: Vec<&str> = manager.binary_files().iter().map(|binary| binary.path.as_str()).collect();
    assert_eq!(paths, vec!["a.bin", "b.bin", "c.bin", "d.bin"]);
    assert_eq!(manager.binary_files()[3].name, Some(String::from("delta")));
}

#[test]
fn two_binaries_do_not_share_a_path_or_a_name() {
    let mut manager = Manager::new();
    manager.binary(String::from("a.bin"), Some(String::from("alpha"))).unwrap();
    manager.binary(String::from("b.bin"), None).unwrap();
    assert_eq!(
        manager.binary(String::from("a.bin"), Some(String::from("other"))),
        Err(error(ErrorKind::DuplicateBinaryPath, 0, "a.bin"))
    );
    assert_eq!(
        manager.binary(String::from("b.bin"), None),
        Err(error(ErrorKind::DuplicateBinaryPath, 0, "b.bin"))
    );
    assert_eq!(
        manager.binary(String::from("c.bin"), Some(String::from("alpha"))),
        Err(error(ErrorKind::DuplicateBinaryName, 0, "alpha"))
    );
    assert_eq!(manager.binary_files().len(), 2);
    assert_eq!(manager.binary(String::from("alpha"), Some(String::from("a.bin"))), Ok(()));
}

#[test]
fn clients_join_the_list_of_their_kind() {
    let mut manager = Manager::new();
    manager.binary(String::from("a.bin"), Some(String::from("alpha"))).unwrap();
    assert_eq!(manager.initialize(String::from("one"), &lines(&["?serial /dev/one", "?use alpha"]), 0), Ok(()));
    assert_eq!(manager.initialize(String::from("two"), &lines(&["?ethernet 10.0.0.2"]), 1), Ok(()));
    assert_eq!(manager.initialize(String::from("three"), &lines(&["?serial /dev/three", "?use 0"]), 2), Ok(()));
    assert_eq!(
        manager.initialize(String::from("four"), &lines(&["?use 1"]), 3),
        Err(error(ErrorKind::BinaryNotFound, 1, "1"))
    );
    let (serial, ethernet) = manager.clients();
    assert_eq!(serial.len(), 2);
    assert_eq!(ethernet.len(), 1);
    assert_eq!(serial[0].context.name, "one");
    assert_eq!(serial[0].source_path, "/dev/one");
    assert_eq!(serial[0].context.binary, Some(String::from("a.bin.stable")));
    assert_eq!(serial[0].index(), 0);
    assert_eq!(serial[1].index(), 2);
    assert_eq!(ethernet[0].index(), 1);
    assert_eq!(ethernet[0].address, Address(10, 0, 0, 2));
    assert_eq!(ethernet[0].context.binary, None);
}

#[test]
fn an_ethernet_client_starts_with_a_binary_and_passes_nothing_on() {
    let (context, _) = configure(&["?ethernet 10.0.0.2", "?use 0"]).unwrap();
    let client = EthernetClient::new(context, Address(10, 0, 0, 2));
    assert!(client.start());
    assert_eq!(client.event(0x0141), None);
    let (context, _) = configure(&["?ethernet 10.0.0.2"]).unwrap();
    let client = EthernetClient::new(context, Address(10, 0, 0, 2));
    assert!(!client.start());
    assert_eq!(client.index(), 4);
}

#[test]
fn a_serial_client_passes_events_on_unless_it_is_locked() {
    let (context, _) = configure(&["?serial s", "?use 0"]).unwrap();
    let mut client = SerialClient::new(context, String::from("s"));
    assert_eq!(client.event(0x0841), Some([0x08, 0x41]));
    assert_eq!(client.event(0xffff), Some([0xff, 0xff]));
    assert_eq!(client.event(0), Some([0, 0]));
    client.context.locked = true;
    assert_eq!(client.event(0x0841), None);
    assert_eq!(client.index(), 4);
}
