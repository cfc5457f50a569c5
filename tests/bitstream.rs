use rtsp_client::BitReader;

#[test]
fn read_bits_msb_first() {
    let data = [0xA6u8, 0x42];
    let mut br = BitReader::new(&data);
    assert_eq!(br.read_bits(4), Some(0xA));
    assert_eq!(br.read_bits(8), Some(0x64));
    assert_eq!(br.read_bits(4), Some(0x2));
    assert_eq!(br.read_bits(1), None);
}

#[test]
fn reread_region_from_fresh_reader() {
    let data = [0xA6u8, 0x42, 0x80];
    let mut first = BitReader::new(&data);
    assert_eq!(first.read_bits(3), Some(0b101));
    let region = first.read_bits(9);
    let mut fresh = BitReader::new(&data);
    assert_eq!(fresh.read_bits(3), Some(0b101));
    assert_eq!(fresh.read_bits(9), region);
    assert_eq!(region, Some(0b0_0110_0100));
    let mut whole = BitReader::new(&data);
    assert_eq!(whole.read_bits(12), Some(0xA64));
}

#[test]
fn read_past_end_fails_and_stays_failed() {
    let data = [0xFFu8];
    let mut br = BitReader::new(&data);
    assert_eq!(br.read_bits(5), Some(0x1F));
    assert_eq!(br.read_bits(4), None);
    assert_eq!(br.read_bits(1), None);
    assert_eq!(br.read_bits(0), Some(0));
}

#[test]
fn read_bits_zero_and_thirty_two() {
    let data = [0xFFu8, 0xFF, 0xFF, 0xFF];
    let mut br = BitReader::new(&data);
    assert_eq!(br.read_bits(0), Some(0));
    assert_eq!(br.read_bits(32), Some(0xFFFF_FFFF));
    let empty: [u8; 0] = [];
    let mut none = BitReader::new(&empty);
    assert_eq!(none.read_bits(1), None);
}

#[test]
fn read_ue_table_round_trip() {
    // 1 010 011 00100 00101, then padding
    let data = [0xA6u8, 0x42, 0x80];
    let mut br = BitReader::new(&data);
    assert_eq!(br.read_ue(), Some(0));
    assert_eq!(br.read_ue(), Some(1));
    assert_eq!(br.read_ue(), Some(2));
    assert_eq!(br.read_ue(), Some(3));
    assert_eq!(br.read_ue(), Some(4));
}

#[test]
fn read_se_zigzag() {
    let data = [0xA6u8, 0x42, 0x80];
    let mut br = BitReader::new(&data);
    assert_eq!(br.read_se(), Some(0));
    assert_eq!(br.read_se(), Some(1));
    assert_eq!(br.read_se(), Some(-1));
    assert_eq!(br.read_se(), Some(2));
    assert_eq!(br.read_se(), Some(-2));
}

#[test]
fn read_ue_largest_code() {
    // 31 zeros, a one, 31 ones
    let data = [0x00u8, 0x00, 0x00, 0x01, 0xFF, 0xFF, 0xFF, 0xFE];
    let mut br = BitReader::new(&data);
    assert_eq!(br.read_ue(), Some(4_294_967_294));
}

#[test]
fn read_se_extremes() {
    let data = [0x00u8, 0x00, 0x00, 0x01, 0xFF, 0xFF, 0xFF, 0xFE];
    let mut br = BitReader::new(&data);
    assert_eq!(br.read_se(), Some(-2_147_483_647));
    // 31 zeros, a one, 30 ones and a zero: code 4294967293
    let data = [0x00u8, 0x00, 0x00, 0x01, 0xFF, 0xFF, 0xFF, 0xFC];
    let mut br = BitReader::new(&data);
    assert_eq!(br.read_se(), Some(2_147_483_647));
}

#[test]
fn read_ue_too_many_zeros_fails() {
    let data = [0x00u8, 0x00, 0x00, 0x00, 0x80, 0x00, 0x00, 0x00, 0x00];
    let mut br = BitReader::new(&data);
    assert_eq!(br.read_ue(), None);
}

#[test]
fn read_ue_runs_out() {
    let empty: [u8; 0] = [];
    let mut br = BitReader::new(&empty);
    assert_eq!(br.read_ue(), None);
    let zeros = [0x00u8];
    let mut br = BitReader::new(&zeros);
    assert_eq!(br.read_ue(), None);
    // five zeros, a one, but only two of the five suffix bits left
    let short = [0b0000_0100u8];
    let mut br = BitReader::new(&short);
    assert_eq!(br.read_ue(), None);
}

#[test]
fn read_flag_reads_one_bit() {
    let data = [0b1000_0000u8];
    let mut br = BitReader::new(&data);
    assert_eq!(br.read_flag(), Some(true));
    assert_eq!(br.read_flag(), Some(false));
}
