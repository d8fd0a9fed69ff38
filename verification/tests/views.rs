use stun_bytes::{ByteAttrIter, ByteMsg, ByteMsgMut};

const MSG: [u8; 28] = [
    0x00, 0x01, // type: Binding Request
    0x00, 0x08, // length: 8 (header does not count)
    0x21, 0x12, 0xA4, 0x42, // magic cookie
    0x00, 0x00, 0x00, 0x00, 0x00, 0x00, 0x00, 0x00, 0x00, 0x00, 0x00, 0x01, // transaction id
    0x00, 0x03, // type: ChangeRequest
    0x00, 0x04, // length: 4 (only value bytes count)
    0x00, 0x00, 0x00, 0x60, // change both ip and port
];

#[test]
fn read() {
    let msg = ByteMsg::new(&MSG[..], true);

    assert_eq!(&MSG[0..2], msg.typ().unwrap());
    assert_eq!(&MSG[2..4], msg.len().unwrap());
    assert_eq!(&MSG[4..8], msg.cookie().unwrap());
    assert_eq!(&MSG[8..20], msg.tid().unwrap());
    assert_eq!(&MSG[20..28], msg.attrs().unwrap());
    assert_eq!(1, msg.attrs_iter().count());

    let mut it = msg.attrs_iter();
    let attr = it.next().unwrap();

    assert_eq!(&MSG[20..22], attr.typ().unwrap());
    assert_eq!(&MSG[22..24], attr.len().unwrap());
    assert_eq!(&MSG[24..28], attr.val().unwrap());
}

#[test]
fn read_mut() {
    let mut buf = MSG.clone();
    let mut msg = ByteMsgMut::new(&mut buf[..], true);

    assert_eq!(&MSG[0..2], &msg.typ().unwrap()[..]);
    assert_eq!(&MSG[2..4], &msg.len().unwrap()[..]);
    assert_eq!(&MSG[4..8], &msg.cookie().unwrap()[..]);
    assert_eq!(&MSG[8..20], &msg.tid().unwrap()[..]);
    assert_eq!(&MSG[20..28], &msg.attrs().unwrap()[..]);
    assert_eq!(1, msg.attrs_iter().count());

    let mut it = msg.attrs_iter();
    let mut attr = it.next().unwrap();

    assert_eq!(&MSG[20..22], &attr.typ().unwrap()[..]);
    assert_eq!(&MSG[22..24], &attr.len().unwrap()[..]);
    assert_eq!(&MSG[24..28], &attr.val().unwrap()[..]);
}

#[test]
fn write() {
    let mut buf = [0u8; MSG.len()];
    {
        let mut msg = ByteMsgMut::new(&mut buf[..], true);

        msg.typ().unwrap().copy_from_slice(&MSG[0..2]);
        // the length field is updated automatically by add_attr
        msg.cookie().unwrap().copy_from_slice(&MSG[4..8]);
        msg.tid().unwrap().copy_from_slice(&MSG[8..20]);
        msg.add_attr(&[0x00, 0x03], &[0x00, 0x04], &MSG[24..28]);
    }

    assert_eq!(&MSG, &buf);

    {
        let mut msg = ByteMsgMut::new(&mut buf[..], true);
        msg.len().unwrap().copy_from_slice(&[0, 0]); // just to double-check len() works
    }
    assert_ne!(&MSG, &buf);

    let mut msg = ByteMsgMut::new(&mut buf[..], true);
    msg.len().unwrap().copy_from_slice(&MSG[2..4]);
    assert_eq!(&MSG[..], msg.as_bytes());
}

#[test]
fn write2() {
    let mut buf = [0u8; MSG.len()];
    let mut msg = ByteMsgMut::new(&mut buf[..], true);

    msg.typ().unwrap().copy_from_slice(&MSG[0..2]);
    // the length field is updated automatically by add_attr2
    msg.cookie().unwrap().copy_from_slice(&MSG[4..8]);
    msg.tid().unwrap().copy_from_slice(&MSG[8..20]);
    msg.add_attr2(|_room| Some(([0x00, 0x03], [0x00, 0x04], vec![0x00, 0x00, 0x00, 0x60])));

    assert_eq!(&MSG[..], msg.as_bytes());
}

#[test]
fn truncated_attribute() {
    // declared V = 8, only 4 value bytes present: the iterator yields one
    // attribute whose value is the 4 available bytes
    let region: [u8; 8] = [0x00, 0x03, 0x00, 0x08, 0xDE, 0xAD, 0xBE, 0xEF];
    let mut it = ByteAttrIter::new(&region[..]);
    let attr = it.next().unwrap();
    assert_eq!(&region[4..8], attr.val().unwrap());
    assert!(it.next().is_none());
    assert_eq!(1, ByteAttrIter::new(&region[..]).count());
}

#[test]
fn unaligned_declared_length() {
    // first attribute declares V = 5, so its padded value spans 8 bytes and
    // the second attribute starts at offset 12
    let region: [u8; 20] = [
        0x00, 0x05, 0x00, 0x05, 0x01, 0x02, 0x03, 0x04, 0x05, 0x00, 0x00, 0x00, 0x00, 0x06, 0x00,
        0x04, 0xAA, 0xBB, 0xCC, 0xDD,
    ];
    let mut it = ByteAttrIter::new(&region[..]);

    let first = it.next().unwrap();
    assert_eq!(&region[0..2], first.typ().unwrap());
    assert_eq!(&region[2..4], first.len().unwrap());
    assert_eq!(&region[4..12], first.val().unwrap());

    let second = it.next().unwrap();
    assert_eq!(&region[12..14], second.typ().unwrap());
    assert_eq!(&region[14..16], second.len().unwrap());
    assert_eq!(&region[16..20], second.val().unwrap());

    assert!(it.next().is_none());
    assert_eq!(2, ByteAttrIter::new(&region[..]).count());
}

#[test]
fn short_buffer() {
    let buf = [0u8; 10];

    let msg = ByteMsg::new(&buf[..], true);
    assert!(msg.typ().is_some());
    assert!(msg.len().is_some());
    assert!(msg.cookie().is_none());
    assert!(msg.tid().is_none());
    assert!(msg.attrs().is_none());
    assert_eq!(0, msg.attrs_iter().count());
    assert_eq!(20, msg.size());

    let plain = ByteMsg::new(&buf[..], false);
    assert!(plain.typ().is_some());
    assert!(plain.len().is_some());
    assert!(plain.cookie().is_none());
    assert!(plain.tid().is_none());
    assert!(plain.attrs().is_none());
    assert_eq!(0, plain.attrs_iter().count());
    assert_eq!(20, plain.size());
}

#[test]
fn empty_region() {
    // a header-only message: the region is present, empty, and yields nothing
    let buf = [0u8; 20];
    let msg = ByteMsg::new(&buf[..], true);
    assert_eq!(0, msg.attrs().unwrap().len());
    assert_eq!(0, msg.attrs_iter().count());
    assert_eq!(20, msg.size());
}

#[test]
fn zero_length_value() {
    // an attribute of declared length 0 has an empty, present value
    let region: [u8; 4] = [0x00, 0x07, 0x00, 0x00];
    let mut it = ByteAttrIter::new(&region[..]);
    let attr = it.next().unwrap();
    assert_eq!(&region[0..2], attr.typ().unwrap());
    assert_eq!(0, attr.val().unwrap().len());
    assert!(it.next().is_none());
}

#[test]
fn size_reads_length_field() {
    let msg = ByteMsg::new(&MSG[..], true);
    assert_eq!(28, msg.size());

    let tiny = [0u8; 3];
    assert_eq!(3, ByteMsg::new(&tiny[..], true).size());
}

#[test]
fn accessors_total_on_any_buffer() {
    // every accessor returns a value or absence on buffers of length
    // 0, 1, 19, 21 and on arbitrary byte patterns; nothing panics
    let mut backing = [0u8; 21];
    let mut x: u8 = 91;
    for i in 0..21 {
        x = x.wrapping_mul(167).wrapping_add(13);
        backing[i] = x;
    }
    for n in [0usize, 1, 19, 21] {
        for cookie in [true, false] {
            let msg = ByteMsg::new(&backing[..n], cookie);
            let _ = msg.typ();
            let _ = msg.len();
            let _ = msg.cookie();
            let _ = msg.tid();
            let _ = msg.attrs();
            let _ = msg.size();
            let mut it = msg.attrs_iter();
            while it.next().is_some() {}

            let mut copy = [0u8; 21];
            copy[..].copy_from_slice(&backing[..]);
            let mut m = ByteMsgMut::new(&mut copy[..n], cookie);
            let _ = m.typ();
            let _ = m.len();
            let _ = m.cookie();
            let _ = m.tid();
            let _ = m.attrs();
            let _ = m.as_bytes();
            let _ = m.add_attr(&[1, 2], &[0, 1], &[9]);
            let mut it = m.attrs_iter();
            while let Some(mut a) = it.next() {
                let _ = a.typ();
                let _ = a.len();
                let _ = a.val();
            }
        }
    }
}
