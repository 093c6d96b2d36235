use mp4box::decimal::push_decimal;
use mp4box::writer::{write_i32, write_u32};
use mp4box::{
    read_box_header_ext, skip_bytes_to, write_box_header_ext, BoxHeader, BoxType, ByteReader,
    Error, HEADER_EXT_SIZE, HEADER_SIZE,
};

#[test]
fn reader_reads_big_endian() {
    let data = [
        0x01, 0x02, 0x03, 0x04, 0xff, 0xff, 0xff, 0x9c, 0x01, 0x02, 0x03, 0x04, 0x05, 0x06, 0x07,
        0x08,
    ];
    let mut reader = ByteReader::new(&data);
    assert_eq!(reader.position(), 0);
    assert_eq!(reader.remaining(), 16);
    assert_eq!(reader.read_u32(), Ok(0x0102_0304));
    assert_eq!(reader.position(), 4);
    assert_eq!(reader.read_i32(), Ok(-100));
    assert_eq!(reader.position(), 8);
    assert_eq!(reader.read_u64(), Ok(0x0102_0304_0506_0708));
    assert_eq!(reader.position(), 16);
    assert_eq!(reader.remaining(), 0);
}

#[test]
fn reader_reads_the_extremes() {
    let data = [0x80, 0, 0, 0, 0x7f, 0xff, 0xff, 0xff, 0xff, 0xff, 0xff, 0xff];
    let mut reader = ByteReader::new(&data);
    assert_eq!(reader.read_i32(), Ok(i32::MIN));
    assert_eq!(reader.read_i32(), Ok(i32::MAX));
    assert_eq!(reader.read_i32(), Ok(-1));
    let mut reader = ByteReader::new(&data);
    assert_eq!(reader.read_u32(), Ok(0x8000_0000));
    skip_bytes_to(&mut reader, 8).unwrap();
    assert_eq!(reader.read_u32(), Ok(u32::MAX));
    let mut reader = ByteReader::new(&data);
    assert_eq!(reader.read_u64(), Ok(0x8000_0000_7fff_ffff));
}

#[test]
fn short_reads_fail_and_stay() {
    let data = [1, 2, 3, 4, 5, 6, 7];
    let mut reader = ByteReader::new(&data);
    assert_eq!(reader.read_u64(), Err(Error::TruncatedStream));
    assert_eq!(reader.position(), 0);
    assert_eq!(reader.read_u32(), Ok(0x0102_0304));
    assert_eq!(reader.read_u32(), Err(Error::TruncatedStream));
    assert_eq!(reader.read_i32(), Err(Error::TruncatedStream));
    assert_eq!(reader.position(), 4);
    assert_eq!(reader.remaining(), 3);
    let mut empty = ByteReader::new(&[]);
    assert_eq!(empty.read_u32(), Err(Error::TruncatedStream));
}

#[test]
fn writer_writes_big_endian() {
    let mut buf = vec![0xee];
    write_u32(&mut buf, 0x0102_0304);
    write_i32(&mut buf, -100);
    write_i32(&mut buf, i32::MIN);
    write_u32(&mut buf, u32::MAX);
    write_u32(&mut buf, 200);
    assert_eq!(
        buf,
        vec![
            0xee, 1, 2, 3, 4, 0xff, 0xff, 0xff, 0x9c, 0x80, 0, 0, 0, 0xff, 0xff, 0xff, 0xff, 0, 0,
            0, 200
        ]
    );
}

#[test]
fn skip_moves_forward_only() {
    let data = [0u8; 10];
    let mut reader = ByteReader::new(&data);
    assert_eq!(skip_bytes_to(&mut reader, 0), Ok(()));
    assert_eq!(reader.position(), 0);
    assert_eq!(skip_bytes_to(&mut reader, 4), Ok(()));
    assert_eq!(reader.position(), 4);
    assert_eq!(skip_bytes_to(&mut reader, 4), Ok(()));
    assert_eq!(skip_bytes_to(&mut reader, 4), Ok(()));
    assert_eq!(reader.position(), 4);
    assert_eq!(skip_bytes_to(&mut reader, 3), Err(Error::SizeMismatch));
    assert_eq!(skip_bytes_to(&mut reader, 0), Err(Error::SizeMismatch));
    assert_eq!(reader.position(), 4);
    assert_eq!(skip_bytes_to(&mut reader, 11), Err(Error::TruncatedStream));
    assert_eq!(skip_bytes_to(&mut reader, u64::MAX), Err(Error::TruncatedStream));
    assert_eq!(reader.position(), 4);
    assert_eq!(skip_bytes_to(&mut reader, 10), Ok(()));
    assert_eq!(reader.position(), 10);
    assert_eq!(reader.remaining(), 0);
}

#[test]
fn header_on_the_wire() {
    let mut buf = Vec::new();
    assert_eq!(BoxHeader::new(BoxType::CttsBox, 32).write(&mut buf), Ok(8));
    assert_eq!(buf, vec![0, 0, 0, 32, b'c', b't', b't', b's']);
    assert_eq!(
        BoxHeader::new(BoxType::UnknownBox(0x6d6f_6f76), 0x0102_0304).write(&mut buf),
        Ok(HEADER_SIZE)
    );
    assert_eq!(&buf[8..], &[1, 2, 3, 4, b'm', b'o', b'o', b'v']);

    let mut reader = ByteReader::new(&buf);
    assert_eq!(
        BoxHeader::read(&mut reader),
        Ok(BoxHeader {
            name: BoxType::CttsBox,
            size: 32
        })
    );
    assert_eq!(reader.position(), 8);
    assert_eq!(
        BoxHeader::read(&mut reader),
        Ok(BoxHeader {
            name: BoxType::UnknownBox(0x6d6f_6f76),
            size: 0x0102_0304
        })
    );
    assert_eq!(reader.position(), 16);
    assert_eq!(BoxHeader::read(&mut reader), Err(Error::TruncatedStream));
}

#[test]
fn header_keeps_the_low_32_bits_of_the_size() {
    let mut buf = Vec::new();
    BoxHeader::new(BoxType::CttsBox, (1 << 32) + 24)
        .write(&mut buf)
        .unwrap();
    assert_eq!(buf, vec![0, 0, 0, 24, b'c', b't', b't', b's']);
}

#[test]
fn header_with_a_64_bit_size() {
    let data = [
        0, 0, 0, 1, b'c', b't', b't', b's', 0, 0, 0, 1, 0, 0, 0, 0x30, 0xff,
    ];
    let mut reader = ByteReader::new(&data);
    assert_eq!(
        BoxHeader::read(&mut reader),
        Ok(BoxHeader::new(BoxType::CttsBox, 0x1_0000_0030))
    );
    assert_eq!(reader.position(), 16);

    for cut in 0..16 {
        let mut reader = ByteReader::new(&data[..cut]);
        assert_eq!(BoxHeader::read(&mut reader), Err(Error::TruncatedStream));
        assert_eq!(reader.position(), 0);
    }
}

#[test]
fn truncated_header() {
    let data = [0, 0, 0, 16, b'c', b't', b't', b's'];
    for cut in 0..8 {
        let mut reader = ByteReader::new(&data[..cut]);
        assert_eq!(BoxHeader::read(&mut reader), Err(Error::TruncatedStream));
        assert_eq!(reader.position(), 0);
    }
}

#[test]
fn box_types_and_their_codes() {
    assert_eq!(BoxType::CttsBox.code(), 0x6374_7473);
    assert_eq!(BoxType::CttsBox.code(), u32::from_be_bytes(*b"ctts"));
    assert_eq!(BoxType::from_code(0x6374_7473), BoxType::CttsBox);
    assert_eq!(BoxType::from_code(0x7374_7473), BoxType::UnknownBox(0x7374_7473));
    assert_eq!(BoxType::UnknownBox(7).code(), 7);
    for code in [0u32, 1, 0x6374_7472, 0x6374_7473, 0x6374_7474, u32::MAX] {
        assert_eq!(BoxType::from_code(code).code(), code);
    }
}

#[test]
fn version_and_flags_on_the_wire() {
    let mut buf = vec![7];
    assert_eq!(write_box_header_ext(&mut buf, 1, 0x0002_0304), Ok(HEADER_EXT_SIZE));
    assert_eq!(write_box_header_ext(&mut buf, 255, 0x00ff_ffff), Ok(4));
    assert_eq!(write_box_header_ext(&mut buf, 0, 0), Ok(4));
    assert_eq!(buf, vec![7, 1, 2, 3, 4, 255, 255, 255, 255, 0, 0, 0, 0]);

    let mut reader = ByteReader::new(&buf[1..]);
    assert_eq!(read_box_header_ext(&mut reader), Ok((1, 0x0002_0304)));
    assert_eq!(read_box_header_ext(&mut reader), Ok((255, 0x00ff_ffff)));
    assert_eq!(read_box_header_ext(&mut reader), Ok((0, 0)));
    assert_eq!(reader.position(), 12);
    assert_eq!(read_box_header_ext(&mut reader), Err(Error::TruncatedStream));
}

#[test]
fn flags_overflow_writes_nothing() {
    let mut buf = vec![7];
    assert_eq!(
        write_box_header_ext(&mut buf, 1, 0x0100_0000),
        Err(Error::FlagsOverflow)
    );
    assert_eq!(
        write_box_header_ext(&mut buf, 0, u32::MAX),
        Err(Error::FlagsOverflow)
    );
    assert_eq!(buf, vec![7]);
}

#[test]
fn truncated_version_and_flags() {
    let data = [1, 2, 3];
    let mut reader = ByteReader::new(&data);
    assert_eq!(read_box_header_ext(&mut reader), Err(Error::TruncatedStream));
    assert_eq!(reader.position(), 0);
}

#[test]
fn numbers_in_decimal() {
    let cases: [(u64, &str); 9] = [
        (0, "0"),
        (7, "7"),
        (9, "9"),
        (10, "10"),
        (99, "99"),
        (100, "100"),
        (1234567890, "1234567890"),
        (4294967295, "4294967295"),
        (u64::MAX, "18446744073709551615"),
    ];
    for (n, text) in cases {
        let mut s = String::from("n=");
        push_decimal(&mut s, n);
        assert_eq!(s, format!("n={}", text));
    }
}
