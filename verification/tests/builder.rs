use stun_bytes::{ByteMsg, ByteMsgMut};

#[test]
fn append_updates_header_length() {
    // after an append that starts from length L the header holds
    // L + 4 + ceil4(len(val)), padding counted
    let mut buf = [0u8; 64];
    let mut msg = ByteMsgMut::new(&mut buf[..], true);

    msg.add_attr(&[0x00, 0x01], &[0x00, 0x01], &[0xAB]).unwrap();
    assert_eq!(&[0x00, 0x08][..], &msg.len().unwrap()[..]); // 0 + 4 + 4

    msg.add_attr(&[0x00, 0x02], &[0x00, 0x05], &[1, 2, 3, 4, 5]).unwrap();
    assert_eq!(&[0x00, 0x14][..], &msg.len().unwrap()[..]); // 8 + 4 + 8
}

#[test]
fn append_length_field_copied_verbatim() {
    // the 2-byte attribute length field is the caller's, not recomputed
    let mut buf = [0u8; 32];
    let mut msg = ByteMsgMut::new(&mut buf[..], true);
    msg.add_attr(&[0x80, 0x28], &[0x00, 0x99], &[7, 7, 7, 7]).unwrap();
    assert_eq!(&[0x00, 0x99][..], &buf[22..24]);
}

#[test]
fn append_without_room_leaves_buffer_untouched() {
    let mut buf = [0u8; 25];
    let mut msg = ByteMsgMut::new(&mut buf[..], true);
    // 20 + 0 + 4 + 2 > 25: the value window does not fit
    assert!(msg.add_attr(&[0, 1], &[0, 2], &[5, 6]).is_none());
    assert_eq!([0u8; 25], buf);

    let mut short = [0u8; 3];
    let mut msg = ByteMsgMut::new(&mut short[..], true);
    assert!(msg.add_attr(&[0, 1], &[0, 0], &[]).is_none());
    assert_eq!([0u8; 3], short);
}

#[test]
fn append_with_callback_aborts() {
    let mut buf = [0u8; 28];
    let mut msg = ByteMsgMut::new(&mut buf[..], true);
    assert!(msg.add_attr2(|_room| None).is_none());
    assert_eq!([0u8; 28], buf);
}

#[test]
fn append_with_callback_sees_room() {
    let mut buf = [0u8; 36];
    {
        let mut msg = ByteMsgMut::new(&mut buf[..], true);
        msg.add_attr2(|room| {
            assert_eq!(12, room);
            Some(([0x00, 0x20], [0x00, 0x03], vec![0x0A, 0x0B, 0x0C]))
        })
        .unwrap();
    }
    assert_eq!(&[0x00, 0x08][..], &buf[2..4]);
    assert_eq!(&[0x00, 0x20][..], &buf[20..22]);
    assert_eq!(&[0x00, 0x03][..], &buf[22..24]);
    assert_eq!(&[0x0A, 0x0B, 0x0C, 0x00][..], &buf[24..28]);
}

#[test]
fn sendable_bytes_follow_header_length() {
    let mut buf = [0u8; 40];
    let mut msg = ByteMsgMut::new(&mut buf[..], true);
    msg.add_attr(&[0, 9], &[0, 2], &[0xEE, 0xFF]).unwrap();
    // logical size 20 + 8 fits within the 40-byte buffer
    assert_eq!(28, msg.as_bytes().len());

    // a declared length that overruns the buffer falls back to the whole buffer
    let mut over = [0u8; 24];
    over[2] = 0xFF;
    over[3] = 0xFF;
    let msg = ByteMsgMut::new(&mut over[..], true);
    assert_eq!(24, msg.as_bytes().len());
}

#[test]
fn mutating_iteration_writes_disjoint_windows() {
    // two attributes yielded by the mutating iterator are held at the same
    // time and written independently; both writes land in the parent buffer
    let mut buf = [0u8; 36];
    {
        let mut msg = ByteMsgMut::new(&mut buf[..], true);
        msg.add_attr(&[0, 1], &[0, 4], &[1, 1, 1, 1]).unwrap();
        msg.add_attr(&[0, 2], &[0, 4], &[2, 2, 2, 2]).unwrap();

        let mut it = msg.attrs_iter();
        let mut first = it.next().unwrap();
        let mut second = it.next().unwrap();
        assert!(it.next().is_none());

        let fv = first.val().unwrap();
        let sv = second.val().unwrap();
        fv[0] = 0xAA;
        sv[0] = 0xBB;
    }
    assert_eq!(0xAA, buf[24]);
    assert_eq!(0xBB, buf[32]);
}

#[test]
fn round_trip_non_cookie_mode() {
    let mut buf = [0u8; 32];
    {
        let mut msg = ByteMsgMut::new(&mut buf[..], false);
        msg.typ().unwrap().copy_from_slice(&[0x01, 0x02]);
        msg.tid().unwrap().copy_from_slice(&[9u8; 16]);
        msg.add_attr(&[0x00, 0x0C], &[0x00, 0x04], &[4, 3, 2, 1]).unwrap();
    }
    let msg = ByteMsg::new(&buf[..], false);
    assert_eq!(&[0x01, 0x02][..], msg.typ().unwrap());
    assert!(msg.cookie().is_none());
    assert_eq!(&[9u8; 16][..], msg.tid().unwrap());
    let mut it = msg.attrs_iter();
    let attr = it.next().unwrap();
    assert_eq!(&[0x00, 0x0C][..], attr.typ().unwrap());
    assert_eq!(&[4, 3, 2, 1][..], attr.val().unwrap());
    assert!(it.next().is_none());
}
