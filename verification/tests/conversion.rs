use macos_bridge::convert::{bgra_to_i420, u_value, v_value, y_value};
use macos_bridge::encoder::HevcEncoder;

fn convert(bgra: &[u8], w: usize, h: usize) -> (Vec<u8>, Vec<u8>, Vec<u8>) {
    let mut y = vec![0u8; w * h];
    let mut u = vec![0u8; (w / 2) * (h / 2)];
    let mut v = vec![0u8; (w / 2) * (h / 2)];
    bgra_to_i420(bgra, w, h, &mut y, &mut u, &mut v);
    (y, u, v)
}

#[test]
fn solid_red_2x2() {
    // BGRA solid red: B=0, G=0, R=255.  BT.601 limited range:
    // Y = ((66*255 + 128) >> 8) + 16 = 82, U = 90, V = 240.
    let bgra = [0u8, 0, 255, 255].repeat(4);
    let (y, u, v) = convert(&bgra, 2, 2);
    assert_eq!(y, vec![82, 82, 82, 82]);
    assert_eq!(u, vec![90]);
    assert_eq!(v, vec![240]);
}

#[test]
fn solid_gray_2x2() {
    let bgra = [128u8, 128, 128, 255].repeat(4);
    let (y, u, v) = convert(&bgra, 2, 2);
    assert_eq!(y, vec![126, 126, 126, 126]);
    assert_eq!(u, vec![128]);
    assert_eq!(v, vec![128]);
}

#[test]
fn black_and_white_extremes() {
    // Limited range: black maps to Y=16, white to Y=235.
    assert_eq!(y_value(0, 0, 0), 16);
    assert_eq!(y_value(255, 255, 255), 235);
    assert_eq!(u_value(0, 0, 0), 128);
    assert_eq!(v_value(0, 0, 0), 128);
    // Chroma extremes stay within 16..=240 without clamping.
    assert_eq!(u_value(0, 0, 255), 240);
    assert_eq!(v_value(255, 0, 0), 240);
}

#[test]
fn chroma_sampled_at_even_coordinates() {
    // 4x2 image: left 2x2 block red, right 2x2 block blue.  Each chroma
    // entry comes from the top-left (even, even) pixel of its block.
    let red = [0u8, 0, 255, 255];
    let blue = [255u8, 0, 0, 255];
    let mut bgra = Vec::new();
    for row in 0..2 {
        let _ = row;
        bgra.extend_from_slice(&red);
        bgra.extend_from_slice(&red);
        bgra.extend_from_slice(&blue);
        bgra.extend_from_slice(&blue);
    }
    let (y, u, v) = convert(&bgra, 4, 2);
    assert_eq!(y.len(), 8);
    assert_eq!(u, vec![u_value(255, 0, 0), u_value(0, 0, 255)]);
    assert_eq!(v, vec![v_value(255, 0, 0), v_value(0, 0, 255)]);
}

#[test]
fn conversion_is_deterministic() {
    // Identical input bytes yield byte-identical planes across runs.
    let bgra: Vec<u8> = (0..4 * 6 * 4).map(|i| (i * 37 % 256) as u8).collect();
    let first = convert(&bgra, 6, 4);
    let second = convert(&bgra, 6, 4);
    assert_eq!(first, second);
}

#[test]
fn encoder_preallocates_planes() {
    let enc = HevcEncoder::new(1920, 1080);
    assert_eq!(enc.y_plane.len(), 1920 * 1080);
    assert_eq!(enc.u_plane.len(), 960 * 540);
    assert_eq!(enc.v_plane.len(), 960 * 540);
    assert_eq!(enc.frames_encoded, 0);
    assert!(!enc.config_sent);
}

#[test]
fn encoder_converts_into_its_planes() {
    let mut enc = HevcEncoder::new(2, 2);
    let bgra = [0u8, 0, 255, 255].repeat(4);
    enc.bgra_to_i420(&bgra);
    assert_eq!(enc.y_plane, vec![82, 82, 82, 82]);
    assert_eq!(enc.u_plane, vec![90]);
    assert_eq!(enc.v_plane, vec![240]);
}
