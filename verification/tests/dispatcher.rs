use nrf52_radio_rs::attributes::{
    Attribute, AttributeTable, Refusal, CURRENT_TIME, LEVEL, STATUS,
};
use nrf52_radio_rs::dispatcher::{dispatch, serve, Event, Outcome, Reply};

#[test]
fn initial_values() {
    let table = AttributeTable::sensor_node();
    assert_eq!(table.len(), 3);
    assert_eq!(table.read(LEVEL), Ok(vec![10]));
    assert_eq!(table.read(STATUS), Ok(vec![0]));
    assert_eq!(table.read(CURRENT_TIME), Ok(vec![0; 10]));
}

#[test]
fn write_status_then_read() {
    let mut table = AttributeTable::sensor_node();
    let write = dispatch(&mut table, &Event::Write { handle: STATUS, data: vec![1] });
    assert_eq!(write, Outcome::Replied(Reply::Written));
    let read = dispatch(&mut table, &Event::Read { handle: STATUS });
    assert_eq!(read, Outcome::Replied(Reply::Value(vec![1])));
}

#[test]
fn unknown_attribute_still_gets_a_reply() {
    let mut table = AttributeTable::sensor_node();
    assert_eq!(
        dispatch(&mut table, &Event::Read { handle: 77 }),
        Outcome::Replied(Reply::Refused(Refusal::UnknownAttribute))
    );
    assert_eq!(
        dispatch(&mut table, &Event::Write { handle: 3, data: vec![1] }),
        Outcome::Replied(Reply::Refused(Refusal::UnknownAttribute))
    );
}

#[test]
fn refused_writes_change_nothing() {
    let mut table = AttributeTable::sensor_node();
    assert_eq!(table.write(LEVEL, &[50]), Some(Refusal::NotWritable));
    assert_eq!(table.write(STATUS, &[1, 2]), Some(Refusal::WrongWidth));
    assert_eq!(table.write(STATUS, &[]), Some(Refusal::WrongWidth));
    assert_eq!(table.write(CURRENT_TIME, &[0; 10]), Some(Refusal::NotWritable));
    assert_eq!(table.read(LEVEL), Ok(vec![10]));
    assert_eq!(table.read(STATUS), Ok(vec![0]));
}

#[test]
fn notify_updates_the_value() {
    let mut table = AttributeTable::sensor_node();
    assert_eq!(table.notify(LEVEL, &[100]), None);
    assert_eq!(table.read(LEVEL), Ok(vec![100]));
    assert_eq!(table.notify(LEVEL, &[0]), None);
    assert_eq!(table.read(LEVEL), Ok(vec![0]));
    assert_eq!(table.notify(CURRENT_TIME, &[7, 0xe7, 7, 4, 20, 15, 30, 0, 0, 0]), None);
    assert_eq!(table.read(CURRENT_TIME), Ok(vec![7, 0xe7, 7, 4, 20, 15, 30, 0, 0, 0]));
}

#[test]
fn notify_refusals() {
    let mut table = AttributeTable::sensor_node();
    assert_eq!(table.notify(LEVEL, &[101]), Some(Refusal::OutOfBounds));
    assert_eq!(table.notify(CURRENT_TIME, &[0; 6]), Some(Refusal::WrongWidth));
    assert_eq!(table.notify(9, &[0]), Some(Refusal::UnknownAttribute));
    assert_eq!(table.read(LEVEL), Ok(vec![10]));
    assert_eq!(table.read(CURRENT_TIME), Ok(vec![0; 10]));
}

#[test]
fn table_of_other_attributes() {
    let hidden = Attribute {
        readable: false,
        writable: true,
        notifying: false,
        width: 2,
        bounds: None,
        description: b"scratch".to_vec(),
        value: vec![1, 2],
    };
    let mut table = AttributeTable::new(vec![hidden]).unwrap();
    assert_eq!(table.read(0), Err(Refusal::NotReadable));
    assert_eq!(table.notify(0, &[3, 4]), Some(Refusal::NotNotifying));
    assert_eq!(table.write(0, &[3, 4]), None);
    let too_short = Attribute {
        readable: true,
        writable: true,
        notifying: true,
        width: 2,
        bounds: None,
        description: vec![],
        value: vec![1],
    };
    assert!(AttributeTable::new(vec![too_short]).is_none());
    assert!(AttributeTable::new(vec![]).is_some());
}

#[test]
fn disconnect_closes() {
    let mut table = AttributeTable::sensor_node();
    assert_eq!(
        dispatch(&mut table, &Event::Disconnected { reason: 0x13 }),
        Outcome::Closed { reason: 0x13 }
    );
}

#[test]
fn serve_replies_to_every_event_until_the_disconnect() {
    let mut table = AttributeTable::sensor_node();
    let events = vec![
        Event::Read { handle: LEVEL },
        Event::Write { handle: STATUS, data: vec![1] },
        Event::Read { handle: STATUS },
        Event::Read { handle: 500 },
        Event::Write { handle: LEVEL, data: vec![1] },
        Event::Disconnected { reason: 0x08 },
        Event::Read { handle: LEVEL },
    ];
    let session = serve(&mut table, &events);
    assert_eq!(
        session.replies,
        vec![
            Reply::Value(vec![10]),
            Reply::Written,
            Reply::Value(vec![1]),
            Reply::Refused(Refusal::UnknownAttribute),
            Reply::Refused(Refusal::NotWritable),
        ]
    );
    assert_eq!(session.closed, Some(0x08));
}

#[test]
fn serve_without_disconnect_stays_open() {
    let mut table = AttributeTable::sensor_node();
    let events = vec![Event::Read { handle: LEVEL }, Event::Read { handle: STATUS }];
    let session = serve(&mut table, &events);
    assert_eq!(session.replies.len(), 2);
    assert_eq!(session.closed, None);
    let session = serve(&mut table, &[]);
    assert_eq!(session.replies, vec![]);
    assert_eq!(session.closed, None);
}

#[test]
fn metadata_of_the_served_attributes() {
    let mut table = AttributeTable::sensor_node();
    let level = table.get(LEVEL).unwrap();
    assert!(level.readable && !level.writable && level.notifying);
    assert_eq!(level.width, 1);
    assert_eq!(level.bounds, Some((0, 100)));
    assert_eq!(level.description, b"Battery Level".to_vec());
    let status = table.get(STATUS).unwrap();
    assert!(status.readable && status.writable && status.notifying);
    assert_eq!(status.width, 1);
    assert_eq!(status.bounds, None);
    let time = table.get(CURRENT_TIME).unwrap();
    assert!(time.readable && !time.writable && time.notifying);
    assert_eq!(time.width, 10);
    assert!(table.get(3).is_none());
    assert_eq!(table.write(STATUS, &[1]), None);
    let status = table.get(STATUS).unwrap();
    assert!(status.readable && status.writable && status.notifying);
    assert_eq!(status.value, vec![1]);
    assert_eq!(table.get(LEVEL).unwrap().description, b"Battery Level".to_vec());
}
