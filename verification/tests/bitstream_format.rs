use macos_bridge::bitstream::{avcc_to_annexb, NAL_START_CODE};

fn record(payload: &[u8]) -> Vec<u8> {
    let mut r = (payload.len() as u32).to_be_bytes().to_vec();
    r.extend_from_slice(payload);
    r
}

/// Split an Annex-B stream on `00 00 00 01` start codes.
fn split_annexb(data: &[u8]) -> Vec<Vec<u8>> {
    let mut starts = Vec::new();
    let mut i = 0;
    while i + 4 <= data.len() {
        if data[i..i + 4] == NAL_START_CODE {
            starts.push(i);
            i += 4;
        } else {
            i += 1;
        }
    }
    let mut out = Vec::new();
    for (k, &s) in starts.iter().enumerate() {
        let end = if k + 1 < starts.len() { starts[k + 1] } else { data.len() };
        out.push(data[s + 4..end].to_vec());
    }
    out
}

#[test]
fn single_record() {
    let avcc = record(&[0x40, 0x01, 0x0c]);
    let annexb = avcc_to_annexb(&avcc);
    assert_eq!(annexb, vec![0, 0, 0, 1, 0x40, 0x01, 0x0c]);
}

#[test]
fn three_records_round_trip() {
    // Annex-B output re-split on start codes yields the original payloads
    // in order.
    let payloads: Vec<Vec<u8>> = vec![vec![0x40, 0x01], vec![0x42, 0x01, 0x02, 0x03], vec![0x26]];
    let mut avcc = Vec::new();
    for p in &payloads {
        avcc.extend_from_slice(&record(p));
    }
    let annexb = avcc_to_annexb(&avcc);
    assert_eq!(split_annexb(&annexb), payloads);
}

#[test]
fn malformed_length_truncates_cleanly() {
    // The second record claims 99 bytes but only one remains: the walk
    // keeps the first record and drops the rest.
    let mut avcc = record(&[9, 9]);
    avcc.extend_from_slice(&[0, 0, 0, 99, 1]);
    let annexb = avcc_to_annexb(&avcc);
    assert_eq!(annexb, vec![0, 0, 0, 1, 9, 9]);
}

#[test]
fn trailing_short_bytes_ignored() {
    let mut avcc = record(&[5]);
    avcc.extend_from_slice(&[0, 0, 0]);
    let annexb = avcc_to_annexb(&avcc);
    assert_eq!(annexb, vec![0, 0, 0, 1, 5]);
}

#[test]
fn zero_length_payload() {
    let avcc = record(&[]);
    let annexb = avcc_to_annexb(&avcc);
    assert_eq!(annexb, vec![0, 0, 0, 1]);
}

#[test]
fn empty_input_gives_empty_output() {
    assert_eq!(avcc_to_annexb(&[]), Vec::<u8>::new());
}

#[test]
fn length_prefix_is_big_endian() {
    // 0x00000102 would be 258 bytes; little-endian misreading would take 2.
    let mut avcc = vec![0, 0, 1, 0];
    avcc.extend_from_slice(&[7u8; 256]);
    let annexb = avcc_to_annexb(&avcc);
    assert_eq!(annexb.len(), 4 + 256);
    assert_eq!(&annexb[0..4], &[0, 0, 0, 1]);
    assert_eq!(&annexb[4..], &[7u8; 256][..]);
}
