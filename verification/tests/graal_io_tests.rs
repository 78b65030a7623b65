use gbf_core::graal_io::{
    GraalReader, GraalWriter, GUINT16_MAX, GUINT24_MAX, GUINT32_MAX, GUINT40_MAX, GUINT8_MAX,
};

const MAX_ENCODED: u8 = 0xff;
const MIN_ENCODED: u8 = 0x20;
const MIN_DECODED: u64 = 0;

#[test]
fn test_constants() {
    let data = vec![MAX_ENCODED, MIN_ENCODED];
    let mut reader = GraalReader::new(data);
    assert_eq!(reader.read_gu8().unwrap(), GUINT8_MAX);
    assert_eq!(reader.read_gu8().unwrap(), MIN_DECODED);

    let data = vec![MAX_ENCODED, MAX_ENCODED, MIN_ENCODED, MIN_ENCODED];
    let mut reader = GraalReader::new(data);
    assert_eq!(reader.read_gu16().unwrap(), GUINT16_MAX);
    assert_eq!(reader.read_gu16().unwrap(), MIN_DECODED);

    let data = vec![MAX_ENCODED, MAX_ENCODED, MAX_ENCODED, MIN_ENCODED, MIN_ENCODED, MIN_ENCODED];
    let mut reader = GraalReader::new(data);
    assert_eq!(reader.read_gu24().unwrap(), GUINT24_MAX);
    assert_eq!(reader.read_gu24().unwrap(), MIN_DECODED);

    let data = vec![
        MAX_ENCODED,
        MAX_ENCODED,
        MAX_ENCODED,
        MAX_ENCODED,
        MIN_ENCODED,
        MIN_ENCODED,
        MIN_ENCODED,
        MIN_ENCODED,
    ];
    let mut reader = GraalReader::new(data);
    assert_eq!(reader.read_gu32().unwrap(), GUINT32_MAX);
    assert_eq!(reader.read_gu32().unwrap(), MIN_DECODED);
}

#[test]
fn test_new() {
    let data = vec![1, 2, 3, 4];
    let reader = GraalReader::new(data.clone());
    assert_eq!(reader.into_inner(), data);

    let data = vec![1, 2, 3, 4];
    let writer = GraalReader::new(data.clone());
    assert_eq!(writer.into_inner(), data);
}

#[test]
fn test_out_of_bounds() {
    let mut reader = GraalReader::new(vec![1, 2, 3, 4]);
    assert!(reader.read_u8().is_ok());
    assert!(reader.read_u8().is_ok());
    assert!(reader.read_u8().is_ok());
    assert!(reader.read_u8().is_ok());
    assert!(reader.read_u8().is_err());

    let mut reader = GraalReader::new(vec![]);
    assert!(reader.read_u8().is_err());

    let mut reader = GraalReader::new(vec![1]);
    assert!(reader.read_u16().is_err());

    let mut reader = GraalReader::new(vec![1]);
    assert!(reader.read_u32().is_err());

    let mut reader = GraalReader::new(vec![1, 2]);
    assert!(reader.read_u32().is_err());
}

#[test]
fn test_decode_bits() {
    assert_eq!(GraalReader::decode_bits(&[32, 32, 32, 32]), 0);
    assert_eq!(GraalReader::decode_bits(&[32, 32, 32, 33]), 1);
    assert_eq!(GraalReader::decode_bits(&[32, 32, 33, 32]), 128);
    assert_eq!(GraalReader::decode_bits(&[32, 33, 32, 32]), 16384);
    assert_eq!(GraalReader::decode_bits(&[33, 32, 32, 32]), 2097152);
}

#[test]
fn test_encode_bits() {
    let mut reader = vec![];
    GraalWriter::encode_bits(0, &mut reader, 4);
    assert_eq!(reader, vec![32, 32, 32, 32]);

    let mut reader = vec![];
    GraalWriter::encode_bits(1, &mut reader, 4);
    assert_eq!(reader, vec![32, 32, 32, 33]);

    let mut reader = vec![];
    GraalWriter::encode_bits(128, &mut reader, 4);
    assert_eq!(reader, vec![32, 32, 33, 32]);

    let mut reader = vec![];
    GraalWriter::encode_bits(16384, &mut reader, 4);
    assert_eq!(reader, vec![32, 33, 32, 32]);

    let mut reader = vec![];
    GraalWriter::encode_bits(2097152, &mut reader, 4);
    assert_eq!(reader, vec![33, 32, 32, 32]);
}

#[test]
fn test_read_string() {
    let mut reader = GraalReader::new(vec![104, 101, 108, 108, 111, 0, 119, 111, 114, 108, 100, 0]);
    assert_eq!(reader.read_string().unwrap().0, "hello");
    assert_eq!(reader.read_string().unwrap().0, "world");

    let mut reader = GraalReader::new(vec![104, 101, 108, 108, 111, 119, 111, 114, 108, 100]);
    assert!(reader.read_string().is_err());

    let mut reader = GraalReader::new(vec![0]);
    assert_eq!(reader.read_string().unwrap().0, "");
}

#[test]
fn test_read_gstring() {
    let mut reader = GraalReader::new(vec![
        32 + 5,
        104,
        101,
        108,
        108,
        111,
        32 + 5,
        119,
        111,
        114,
        108,
        100,
    ]);
    assert_eq!(reader.read_gstring().unwrap(), "hello");
    assert_eq!(reader.read_gstring().unwrap(), "world");

    let mut reader = GraalReader::new(vec![255]);
    assert!(reader.read_gstring().is_err());
}

#[test]
fn test_read_u8() {
    let mut reader = GraalReader::new(vec![1, 2, 3, 4]);
    assert_eq!(reader.read_u8().unwrap(), 1);
    assert_eq!(reader.read_u8().unwrap(), 2);
    assert_eq!(reader.read_u8().unwrap(), 3);
    assert_eq!(reader.read_u8().unwrap(), 4);
}

#[test]
fn test_read_u16() {
    let mut reader = GraalReader::new(vec![0, 1, 0, 2]);
    assert_eq!(reader.read_u16().unwrap(), 1);
    assert_eq!(reader.read_u16().unwrap(), 2);
}

#[test]
fn test_read_u32() {
    let mut reader = GraalReader::new(vec![0, 0, 0, 1, 0, 0, 0, 2]);
    assert_eq!(reader.read_u32().unwrap(), 1);
    assert_eq!(reader.read_u32().unwrap(), 2);
}

#[test]
fn test_read_gu8() {
    let mut reader = GraalReader::new(vec![32 + 1]);
    assert_eq!(reader.read_gu8().unwrap(), 1);
}

#[test]
fn test_read_gu16() {
    let mut reader = GraalReader::new(vec![32 + 1, 32 + 1]);
    assert_eq!(reader.read_gu16().unwrap(), 129);
}

#[test]
fn test_read_gu24() {
    let mut reader = GraalReader::new(vec![32 + 1, 32 + 1, 32 + 1]);
    assert_eq!(reader.read_gu24().unwrap(), 16513);
}

#[test]
fn test_read_gu32() {
    let mut reader = GraalReader::new(vec![32 + 1, 32 + 1, 32 + 1, 32 + 1]);
    assert_eq!(reader.read_gu32().unwrap(), 2113665);
}

#[test]
fn test_read_gu40() {
    let mut reader = GraalReader::new(vec![32 + 1, 32 + 1, 32 + 1, 32 + 1, 32 + 1]);
    assert_eq!(reader.read_gu40().unwrap(), 270549121);
}

#[test]
fn test_write_gstring() {
    let mut writer = GraalWriter::new(vec![]);
    writer.write_gstring("hello").unwrap();
    writer.write_gstring("world").unwrap();
    assert_eq!(
        writer.into_inner(),
        vec![32 + 5, 104, 101, 108, 108, 111, 32 + 5, 119, 111, 114, 108, 100]
    );

    let mut writer = GraalWriter::new(vec![]);
    let long_string = "a".repeat(GUINT8_MAX as usize);
    writer.write_gstring(&long_string).unwrap();

    let mut writer = GraalWriter::new(vec![]);
    let long_string = "a".repeat(GUINT8_MAX as usize + 1);
    assert!(writer.write_gstring(&long_string).is_err());
}

#[test]
fn test_write_string() {
    let mut writer = GraalWriter::new(vec![]);
    writer.write_string("hello").unwrap();
    writer.write_string("world").unwrap();
    assert_eq!(writer.into_inner(), vec![104, 101, 108, 108, 111, 0, 119, 111, 114, 108, 100, 0]);
}

#[test]
fn test_write() {
    let mut writer = GraalWriter::new(vec![]);
    writer.write(&[1, 2, 3, 4]).unwrap();
    assert_eq!(writer.into_inner(), vec![1, 2, 3, 4]);
}

#[test]
fn test_write_u8() {
    let mut writer = GraalWriter::new(vec![]);
    writer.write_u8(1).unwrap();
    writer.write_u8(2).unwrap();
    assert_eq!(writer.into_inner(), vec![1, 2]);
}

#[test]
fn test_write_u16() {
    let mut writer = GraalWriter::new(vec![]);
    writer.write_u16(1).unwrap();
    writer.write_u16(2).unwrap();
    assert_eq!(writer.into_inner(), vec![0, 1, 0, 2]);
}

#[test]
fn test_write_u32() {
    let mut writer = GraalWriter::new(vec![]);
    writer.write_u32(1).unwrap();
    writer.write_u32(2).unwrap();
    assert_eq!(writer.into_inner(), vec![0, 0, 0, 1, 0, 0, 0, 2]);
}

#[test]
fn test_write_gu8() {
    let mut writer = GraalWriter::new(vec![]);
    writer.write_gu8(1).unwrap();
    assert_eq!(writer.into_inner(), vec![32 + 1]);

    let mut writer = GraalWriter::new(vec![]);
    assert!(writer.write_gu8(GUINT8_MAX + 1).is_err());
}

#[test]
fn test_write_gu16() {
    let mut writer = GraalWriter::new(vec![]);
    writer.write_gu16(1).unwrap();
    assert_eq!(writer.into_inner(), vec![32, 32 + 1]);

    let mut writer = GraalWriter::new(vec![]);
    assert!(writer.write_gu16(GUINT16_MAX + 1).is_err());
}

#[test]
fn test_write_gu24() {
    let mut writer = GraalWriter::new(vec![]);
    writer.write_gu24(1).unwrap();
    assert_eq!(writer.into_inner(), vec![32, 32, 32 + 1]);

    let mut writer = GraalWriter::new(vec![]);
    assert!(writer.write_gu24(GUINT24_MAX + 1).is_err());
}

#[test]
fn test_write_gu32() {
    let mut writer = GraalWriter::new(vec![]);
    writer.write_gu32(1).unwrap();
    assert_eq!(writer.into_inner(), vec![32, 32, 32, 32 + 1]);

    let mut writer = GraalWriter::new(vec![]);
    assert!(writer.write_gu32(GUINT32_MAX + 1).is_err());
}

#[test]
fn test_write_gu40() {
    let mut writer = GraalWriter::new(vec![]);
    writer.write_gu40(1).unwrap();
    assert_eq!(writer.into_inner(), vec![32, 32, 32, 32, 32 + 1]);

    let mut writer = GraalWriter::new(vec![]);
    assert!(writer.write_gu40(GUINT40_MAX + 1).is_err());
}

#[test]
fn graal_io_write_then_read_round_trip() {
    let mut writer = GraalWriter::new(vec![]);
    writer.write_gu16(1000).unwrap();
    writer.write_u32(0xDEADBEEF).unwrap();
    writer.write_string("abc").unwrap();
    let mut reader = GraalReader::new(writer.into_inner());
    assert_eq!(reader.read_gu16().unwrap(), 1000);
    assert_eq!(reader.read_u32().unwrap(), 0xDEADBEEF);
    assert_eq!(reader.read_string().unwrap(), ("abc".to_string(), 3));
    assert_eq!(reader.position(), 10);
}

#[test]
fn graal_io_failed_read_consumes_the_input() {
    let mut reader = GraalReader::new(vec![1, 2, 3]);
    assert!(reader.read_u32().is_err());
    assert_eq!(reader.position(), 3);
    assert!(reader.read_u16().is_err());
    let mut reader = GraalReader::new(vec![0x61, 0x62]);
    assert!(reader.read_string().is_err());
    assert_eq!(reader.position(), 2);
}

#[test]
fn largest_values_round_trip() {
    let mut writer = GraalWriter::new(vec![]);
    writer.write_gu8(GUINT8_MAX).unwrap();
    writer.write_gu8(200).unwrap();
    writer.write_gu16(GUINT16_MAX).unwrap();
    writer.write_gu24(GUINT24_MAX).unwrap();
    writer.write_gu32(GUINT32_MAX).unwrap();
    let bytes = writer.into_inner();
    assert_eq!(&bytes[0..4], &[0xff, 232, 0xff, 0xff]);
    let mut reader = GraalReader::new(bytes);
    assert_eq!(reader.read_gu8().unwrap(), GUINT8_MAX);
    assert_eq!(reader.read_gu8().unwrap(), 200);
    assert_eq!(reader.read_gu16().unwrap(), GUINT16_MAX);
    assert_eq!(reader.read_gu24().unwrap(), GUINT24_MAX);
    assert_eq!(reader.read_gu32().unwrap(), GUINT32_MAX);
}

#[test]
fn long_gstring_length_prefix() {
    let mut writer = GraalWriter::new(vec![]);
    let long_string = "a".repeat(GUINT8_MAX as usize);
    writer.write_gstring(&long_string).unwrap();
    let bytes = writer.into_inner();
    assert_eq!(bytes[0], 32 + GUINT8_MAX as u8);
    let mut reader = GraalReader::new(bytes);
    assert_eq!(reader.read_gstring().unwrap(), long_string);
}
